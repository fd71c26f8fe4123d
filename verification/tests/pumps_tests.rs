use helios_api::streams::records::{existing_stream_camera, other_stream_record, record_for_stream_edit, StoredRecordFacts};
use helios_api::recording::sessions::{ActiveRecordingSession, SessionTable};
use helios_api::recording::capture::replay_timestamp_span;
use helios_api::recording::sidecar::SettleWait;
use helios_api::storage::probe::{block_size_bytes, boot_ota_marker, has_ext4_magic};
use helios_api::streams::controls::{control_requires_restart, replay_restart_on_control_failure};
use helios_api::streams::edits::{IoErrorKind, TransportError};
use helios_api::streams::engine_reply::{EngineErrorCode, HttpReply};
use helios_api::streams::manifest::{LayoutSlot, PipelineBinding, PipelineConfig, PipelineLayout, ReservedPipelineIds};
use helios_api::streams::pumps::{
    is_mjpeg_fourcc, length_prefix_bytes, FrameHeader, MjpegPump, MjpegReading, PreviewPump, PreviewReading, PumpAction,
    FOURCC_JPEG, FOURCC_MJPG,
};
use helios_api::streams::starting::{
    await_start_outcome, benchmark_busy_reply, camera_in_use_reply, engine_crash_reply, start_step, StartReply, StartStep,
};
use helios_api::streams::validation::BackendKind;

fn header(seq: u64, len: u32, fourcc: u32) -> FrameHeader {
    FrameHeader { seq, len, fourcc }
}

#[test]
fn mjpeg_fourcc_codes() {
    assert_eq!(FOURCC_MJPG, u32::from_le_bytes(*b"MJPG"));
    assert_eq!(FOURCC_JPEG, u32::from_le_bytes(*b"JPEG"));
    assert!(is_mjpeg_fourcc(u32::from_le_bytes(*b"MJPG")));
    assert!(!is_mjpeg_fourcc(u32::from_le_bytes(*b"H264")));
}

#[test]
fn preview_pump_sends_each_frame_once() {
    let nv12 = u32::from_le_bytes(*b"NV12");
    let mut pump = PreviewPump::new();
    assert_eq!(pump.step(PreviewReading::NothingNewer, 1000), PumpAction::Wait);
    assert_eq!(
        pump.step(PreviewReading::Frame { header: header(5, 10, nv12), payload_len: 10 }, 1000),
        PumpAction::Send { length: 10 }
    );
    assert_eq!(pump.last_seq, 5);
    assert_eq!(pump.step(PreviewReading::Frame { header: header(5, 10, nv12), payload_len: 10 }, 1000), PumpAction::Wait);
    assert_eq!(pump.step(PreviewReading::Frame { header: header(6, 0, nv12), payload_len: 10 }, 1000), PumpAction::Wait);
    assert_eq!(pump.step(PreviewReading::Failed { now_ms: 100 }, 1000), PumpAction::Wait);
    assert_eq!(pump.step(PreviewReading::Failed { now_ms: 900 }, 1000), PumpAction::Wait);
    assert_eq!(pump.step(PreviewReading::Failed { now_ms: 1100 }, 1000), PumpAction::Stop);
    let mut recovering = PreviewPump::new();
    recovering.step(PreviewReading::Failed { now_ms: 0 }, 1000);
    recovering.step(PreviewReading::NothingNewer, 1000);
    assert_eq!(recovering.failing_since_ms, None);
    assert_eq!(recovering.step(PreviewReading::Failed { now_ms: 1500 }, 1000), PumpAction::Wait);
}

#[test]
fn mjpeg_pump_waits_out_format_switches() {
    let mut pump = MjpegPump::new();
    let h264 = u32::from_le_bytes(*b"H264");
    assert_eq!(pump.step(MjpegReading::Header { header: header(1, 9, FOURCC_MJPG), now_ms: 0 }, 500), PumpAction::ReadFrame);
    assert_eq!(
        pump.step(MjpegReading::Frame { header: header(1, 9, FOURCC_MJPG), byte_len: 9, listeners: true }, 500),
        PumpAction::Send { length: 9 }
    );
    assert_eq!(pump.step(MjpegReading::Header { header: header(1, 9, FOURCC_MJPG), now_ms: 10 }, 500), PumpAction::Wait);
    assert_eq!(pump.step(MjpegReading::Header { header: header(2, 9, h264), now_ms: 20 }, 500), PumpAction::Wait);
    assert_eq!(pump.step(MjpegReading::HeaderFailed { now_ms: 600 }, 500), PumpAction::Stop);
    let mut quiet = MjpegPump::new();
    assert_eq!(
        quiet.step(MjpegReading::Frame { header: header(3, 9, FOURCC_JPEG), byte_len: 9, listeners: false }, 500),
        PumpAction::Wait
    );
}

#[test]
fn length_prefix_is_little_endian() {
    assert_eq!(length_prefix_bytes(0x0102_0304), [4, 3, 2, 1]);
    assert_eq!(length_prefix_bytes(0x0102_0304), 0x0102_0304u32.to_le_bytes());
    assert_eq!(length_prefix_bytes(0), [0, 0, 0, 0]);
}

#[test]
fn settle_wait_needs_a_quiet_file() {
    let mut wait = SettleWait::new();
    assert!(!wait.observe(0, 100));
    assert!(!wait.observe(100, 200));
    assert!(!wait.observe(300, 200));
    assert!(wait.observe(350, 200));
    let mut busy = SettleWait::new();
    assert!(busy.observe(5000, 1));
}

#[test]
fn replay_span_skips_unreadable_lines() {
    let span = replay_timestamp_span("10\nx\n\n20\r\n35").expect("span");
    assert_eq!((span.count, span.first, span.last), (3, 10, 35));
    assert!(replay_timestamp_span("a\n\n").is_none());
}

#[test]
fn block_device_facts() {
    assert_eq!(block_size_bytes(Some(" 2048\n"), Some("4096\n")), Some(2048 * 4096));
    assert_eq!(block_size_bytes(Some("2048"), None), Some(2048 * 512));
    assert_eq!(block_size_bytes(Some("2048"), Some("x")), Some(2048 * 512));
    assert_eq!(block_size_bytes(Some("x"), Some("512")), None);
    assert_eq!(block_size_bytes(None, Some("512")), None);
    assert_eq!(block_size_bytes(Some("18446744073709551615"), Some("2")), Some(u64::MAX));
    assert!(has_ext4_magic([0x53, 0xEF]));
    assert!(!has_ext4_magic([0xEF, 0x53]));
    assert_eq!(boot_ota_marker(&vec![None, Some("  \n".to_string()), Some(" ROOT_B\n".to_string())]).as_deref(), Some("ROOT_B"));
    assert_eq!(boot_ota_marker(&vec![None]), None);
}

#[test]
fn control_change_routes() {
    assert!(control_requires_restart(10002, Some(BackendKind::Libcamera)));
    assert!(!control_requires_restart(10002, Some(BackendKind::V4l2)));
    assert!(!control_requires_restart(5, Some(BackendKind::Libcamera)));
    assert!(!control_requires_restart(10002, None));
    assert!(replay_restart_on_control_failure(true, 504));
    assert!(!replay_restart_on_control_failure(true, 502));
}

const RAW: u128 = 1;

fn ids() -> ReservedPipelineIds {
    ReservedPipelineIds { raw: RAW, calibration_mode: 2 }
}

#[test]
fn start_answers_are_routed() {
    let layout = PipelineLayout {
        rows: 1,
        columns: 1,
        slots: vec![LayoutSlot { row: 0, column: 0, pipeline_id: Some(4), output_key: Some("gone".to_string()) }],
    };
    let mut cfg = PipelineConfig {
        pipeline_enabled: true,
        pipelines: vec![PipelineBinding { pipeline_id: 4, pipeline_output: Some("gone".to_string()), has_inline_graph: false }],
        active_pipeline_id: Some(4),
        active_pipeline_output: Some("gone".to_string()),
        pipeline_layout: Some(layout),
        pipeline_wires: Vec::new(),
    };
    let mut attempted = false;
    let stale = StartReply::Refused {
        code: EngineErrorCode::InvalidState,
        reason: "selected output 'gone' not found".to_string(),
        retryable: false,
    };
    assert_eq!(start_step(&mut cfg, &mut attempted, &stale, None, &ids()), StartStep::Retry);
    assert!(attempted);
    assert_eq!(cfg.active_pipeline_output, None);
    match start_step(&mut cfg, &mut attempted, &stale, None, &ids()) {
        StartStep::Fail { reply } => {
            assert_eq!(reply.status, 400);
            assert_eq!(reply.body.unwrap().retryable, Some(false));
        }
        other => panic!("unexpected step {other:?}"),
    }
    let busy = StartReply::Refused { code: EngineErrorCode::Busy, reason: "busy".to_string(), retryable: true };
    match start_step(&mut cfg, &mut false, &busy, None, &ids()) {
        StartStep::Fail { reply } => assert_eq!(reply.status, 503),
        other => panic!("unexpected step {other:?}"),
    }
    let crash = engine_crash_reply(Some(10), 5).expect("restart after start");
    assert_eq!(crash.body.as_ref().unwrap().error, "engine restarted while applying stream settings");
    assert_eq!(engine_crash_reply(Some(4), 5), None);
    assert_eq!(engine_crash_reply(None, 5), None);
    assert_eq!(start_step(&mut cfg, &mut false, &busy, Some(crash.clone()), &ids()), StartStep::Fail { reply: crash });
    assert_eq!(start_step(&mut cfg, &mut false, &StartReply::Started { stream_id: 9 }, None, &ids()), StartStep::Running { stream_id: 9 });
    assert_eq!(start_step(&mut cfg, &mut false, &StartReply::Unclear, None, &ids()), StartStep::AwaitStart);
}

#[test]
fn waiting_for_a_start() {
    assert_eq!(await_start_outcome(&Ok(true), 7, None), Ok(7));
    let missing = await_start_outcome(&Ok(false), 7, None).unwrap_err();
    assert_eq!(missing.status, 502);
    assert_eq!(missing.body.unwrap().error, "engine did not confirm stream start");
    let crash = HttpReply { status: 502, body: None };
    assert_eq!(await_start_outcome(&Ok(false), 7, Some(crash.clone())), Err(crash));
    let failed = await_start_outcome(
        &Err(TransportError::Io { kind: IoErrorKind::Other, detail: "t".to_string(), message: "timed out".to_string() }),
        7,
        None,
    )
    .unwrap_err();
    assert_eq!(failed.body.unwrap().error, "timed out");
    assert_eq!(benchmark_busy_reply().status, 409);
    assert_eq!(
        camera_in_use_reply(255).body.unwrap().error,
        "camera is already in use by stream 00000000-0000-0000-0000-0000000000ff"
    );
}

#[test]
fn stored_records_are_found_by_any_of_their_ids() {
    let record = |camera: &str, internal, manifest_id, stream_id, last, derived| StoredRecordFacts {
        camera_id: camera.to_string(),
        has_manifest: true,
        internal,
        manifest_id,
        stream_id,
        last_stream_id: last,
        derived_id: derived,
        has_calibration: camera == "b",
    };
    let records = vec![
        record("internal", true, Some(7), Some(7), None, 100),
        record("a", false, None, None, Some(7), 101),
        record("b", false, Some(8), None, None, 7),
    ];
    assert_eq!(record_for_stream_edit(&records, 7), Some(1));
    assert_eq!(record_for_stream_edit(&records, 8), Some(2));
    assert_eq!(record_for_stream_edit(&records, 9), None);
    assert_eq!(existing_stream_camera(&records, 7, None).as_deref(), Some("b"));
    assert_eq!(existing_stream_camera(&records, 101, None).as_deref(), Some("a"));
    assert_eq!(existing_stream_camera(&records, 5, Some("run".to_string())).as_deref(), Some("run"));
    assert!(other_stream_record(&records[1], 7));
    assert!(!other_stream_record(&records[1], 101));
    assert!(!other_stream_record(&records[0], 1));
    assert_eq!(helios_api::streams::records::calibration_record(&records, 7), Some(2));
    assert_eq!(helios_api::streams::records::calibration_record(&records, 101), None);
}

#[test]
fn one_session_per_stream() {
    let mut sidecars: SessionTable<&str> = SessionTable::new();
    assert!(!sidecars.contains(3));
    assert_eq!(sidecars.insert_if_absent(3, "first"), Ok(()));
    assert_eq!(sidecars.insert_if_absent(3, "second"), Err("second"));
    assert_eq!(sidecars.remove(3), Some("first"));
    assert_eq!(sidecars.remove(3), None);
    let mut active: SessionTable<ActiveRecordingSession> = SessionTable::new();
    let clip = |name: &str| ActiveRecordingSession { media_name: name.to_string(), output_path: format!("/media/{name}") };
    active.insert(1, clip("a.mp4"));
    active.insert(1, clip("b.mp4"));
    assert_eq!(active.remove(1), Some(clip("b.mp4")));
}
