use helios_api::recording::answers::{
    media_file_name, replay_bundle_precheck, replay_bundle_stop_answer, shadow_refusal_answer, RequestRefusal,
};
use helios_api::recording::capture::ShadowCaptureRefusal;
use helios_api::recording::options::{
    recording_codec, recording_follows_stream_codec, RecordingCodec, RecordingContainer, RecordingOptionError,
    RecordingSourceKind,
};
use helios_api::recording::replay::StartReplayBundleRequest;
use helios_api::recording::samplers::{sampler_should_stop, sampler_sleep_ms, PipelineSampleMemory, SensorThrottle};
use helios_api::storage::mounts::{disk_from_partition_device, partition_device};
use helios_api::streams::engine_reply::EngineErrorCode;
use helios_api::streams::preview::normalize_detections_order_mode;

const STREAM: u128 = 0x0123_4567_89ab_cdef_0123_4567_89ab_cdef;

fn bundle_request(codec: Option<&str>, container: Option<&str>) -> StartReplayBundleRequest {
    StartReplayBundleRequest {
        name: None,
        duration_ms: None,
        codec: codec.map(|s| s.to_string()),
        container: container.map(|s| s.to_string()),
        pipeline_ports: Vec::new(),
        pipeline_interval_ms: None,
        include_sensors: None,
        sensors_min_interval_ms: None,
        include_i2c_inventory: None,
        include_stream_metrics: None,
        stream_metrics_interval_ms: None,
        include_cpu: None,
        cpu_interval_ms: None,
    }
}

#[test]
fn samplers_stop_on_cancel_or_deadline() {
    assert!(sampler_should_stop(true, 0, None));
    assert!(!sampler_should_stop(false, 10_000, None));
    assert!(!sampler_should_stop(false, 999, Some(1000)));
    assert!(sampler_should_stop(false, 1000, Some(1000)));
    assert!(sampler_should_stop(false, 1500, Some(1000)));
}

#[test]
fn samplers_never_sleep_past_the_deadline() {
    assert_eq!(sampler_sleep_ms(33, 0, None), 33);
    assert_eq!(sampler_sleep_ms(33, 0, Some(1000)), 33);
    assert_eq!(sampler_sleep_ms(250, 900, Some(1000)), 100);
    assert_eq!(sampler_sleep_ms(250, 1200, Some(1000)), 0);
}

#[test]
fn sensor_snapshots_are_throttled() {
    let mut t = SensorThrottle::new(50);
    assert!(t.should_write(1000));
    assert!(!t.should_write(1020));
    assert!(!t.should_write(1049));
    assert!(t.should_write(1050));
    assert_eq!(t.last_sent_ms, Some(1050));
    assert!(!t.should_write(900));
    assert!(t.should_write(2000));
}

#[test]
fn pipeline_samples_are_written_only_on_change() {
    let mut m = PipelineSampleMemory::new();
    assert!(m.record_if_changed("tags", "{\"n\":1}".to_string()));
    assert!(!m.record_if_changed("tags", "{\"n\":1}".to_string()));
    assert!(m.record_if_changed("pose", "{\"n\":1}".to_string()));
    assert!(m.record_if_changed("tags", "{\"n\":2}".to_string()));
    assert!(!m.record_if_changed("tags", "{\"n\":2}".to_string()));
    assert!(!m.record_if_changed("pose", "{\"n\":1}".to_string()));
    assert!(m.record_if_changed("tags", "{\"n\":1}".to_string()));
}

#[test]
fn recording_codec_follows_the_stream_when_none_is_named() {
    assert!(recording_follows_stream_codec(None, RecordingSourceKind::Multiplex));
    assert!(recording_follows_stream_codec(Some("  "), RecordingSourceKind::Multiplex));
    assert!(!recording_follows_stream_codec(Some("h264"), RecordingSourceKind::Multiplex));
    assert!(!recording_follows_stream_codec(None, RecordingSourceKind::Raw));
    assert!(!recording_follows_stream_codec(None, RecordingSourceKind::Pipeline));
    assert_eq!(
        recording_codec(RecordingCodec::H265, None, RecordingSourceKind::Multiplex, Some(RecordingCodec::H264)),
        RecordingCodec::H264
    );
    assert_eq!(recording_codec(RecordingCodec::H265, None, RecordingSourceKind::Multiplex, None), RecordingCodec::H265);
    assert_eq!(
        recording_codec(RecordingCodec::H265, Some("hevc"), RecordingSourceKind::Multiplex, Some(RecordingCodec::H264)),
        RecordingCodec::H265
    );
    assert_eq!(
        recording_codec(RecordingCodec::H265, None, RecordingSourceKind::Raw, Some(RecordingCodec::H264)),
        RecordingCodec::H265
    );
}

#[test]
fn shadow_capture_refusals_are_bad_requests() {
    assert_eq!(
        shadow_refusal_answer(ShadowCaptureRefusal::FeatureDisabled),
        RequestRefusal {
            status: 400,
            engine_code: Some(EngineErrorCode::InvalidState),
            message: "shadow recorder feature is disabled".to_string()
        }
    );
    assert_eq!(
        shadow_refusal_answer(ShadowCaptureRefusal::EmptyWindow),
        RequestRefusal { status: 400, engine_code: None, message: "window_ms must be greater than zero".to_string() }
    );
    let e = RecordingOptionError { message: "unsupported codec: vp8".to_string() };
    assert_eq!(
        shadow_refusal_answer(ShadowCaptureRefusal::BadOption(e)),
        RequestRefusal { status: 400, engine_code: None, message: "unsupported codec: vp8".to_string() }
    );
}

#[test]
fn replay_bundle_conflict_comes_first() {
    let r = replay_bundle_precheck(true, &bundle_request(Some("vp8"), None)).unwrap_err();
    assert_eq!(r.status, 409);
    assert_eq!(r.engine_code, Some(EngineErrorCode::Conflict));
    assert_eq!(r.message, "replay bundle already active");
    let r = replay_bundle_precheck(false, &bundle_request(Some("vp8"), None)).unwrap_err();
    assert_eq!(r, RequestRefusal { status: 400, engine_code: None, message: "unsupported codec: vp8".to_string() });
    assert_eq!(
        replay_bundle_precheck(false, &bundle_request(None, None)),
        Ok((RecordingContainer::Mp4, RecordingCodec::H265))
    );
    assert_eq!(
        replay_bundle_precheck(false, &bundle_request(None, Some("h264"))),
        Ok((RecordingContainer::Raw, RecordingCodec::H264))
    );
}

#[test]
fn media_file_names_and_refusals() {
    assert_eq!(
        media_file_name(Some("run one"), "replay", "mp4", STREAM, 5, "invalid replay name"),
        Ok("run one.mp4".to_string())
    );
    assert_eq!(
        media_file_name(None, "recording", "h264", STREAM, 42, "invalid recording name"),
        Ok("recording_01234567-89ab-cdef-0123-456789abcdef_42.h264".to_string())
    );
    assert_eq!(
        media_file_name(Some("   "), "replay", "mp4", STREAM, 5, "invalid replay name"),
        Err(RequestRefusal { status: 400, engine_code: None, message: "invalid replay name".to_string() })
    );
}

#[test]
fn replay_bundle_stop_answers() {
    let ok = replay_bundle_stop_answer(true);
    assert_eq!(ok.status, 204);
    assert!(ok.body.is_none());
    let missing = replay_bundle_stop_answer(false);
    assert_eq!(missing.status, 404);
    let body = missing.body.unwrap();
    assert_eq!(body.code, "not_found");
    assert_eq!(body.error, "replay bundle not active");
}

#[test]
fn partition_names_give_their_disk_back() {
    for disk in ["/dev/mmcblk0", "/dev/nvme0n1", "/dev/sda", "/dev/sdb"] {
        for n in [1u32, 2, 4, 12, 4_000_000_000] {
            let part = partition_device(disk, n);
            assert_eq!(disk_from_partition_device(&part).as_deref(), Some(disk));
        }
    }
    assert_eq!(partition_device("/dev/mmcblk0", 4), "/dev/mmcblk0p4");
    assert_eq!(partition_device("/dev/sda", 4), "/dev/sda4");
}

#[test]
fn ordering_modes_normalize_once() {
    for raw in [" Top-Left ", "LARGEST TO SMALLEST", "center-most", "crosshair", "none"] {
        let once = normalize_detections_order_mode(raw).unwrap();
        assert_eq!(normalize_detections_order_mode(&once), Ok(once.clone()));
    }
    assert_eq!(normalize_detections_order_mode(" Top-Left "), Ok("top_left".to_string()));
}
