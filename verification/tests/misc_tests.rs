use helios_api::storage::health::{
    describe_self_check_codes, is_benign_self_repair, slot_size_for_marker, OtaLayoutProbe, OtaProbe,
};
use helios_api::storage::mounts::{mount_field_decodable, mountinfo_line_decodable};
use helios_api::storage::probe::{capture_storage_probe, probe_storage_health, storage_reads_ok, StorageSystemReads};
use helios_api::streams::edits::str_less;
use helios_api::streams::engine_reply::EngineErrorCode;
use helios_api::streams::media::{
    file_replay_content_type, is_supported_extension, is_supported_file_replay_path,
    validate_file_backend_media_paths, MediaPathKind,
};
use helios_api::streams::manifest::{PipelineConfig, ReservedPipelineIds};
use helios_api::streams::starting::engine_error_body_with_retryable;
use helios_api::streams::validate::{runtime_capabilities_unavailable, validation_outcome, NormalizedStreamManifest};
use helios_api::streams::validation::{
    pointer, push_issue, push_issue_fix, push_warning, BackendHandle, BackendKind, CaptureConfig,
    DecoderRequest, EncoderRequest, StreamIdentity, StreamManifest, ValidationIssue,
};

const MOUNTINFO: &str = "22 1 179:2 / / rw,relatime - overlay overlay rw\n\
30 22 179:3 / /var/lib/helios rw,relatime - ext4 /dev/mmcblk0p3 rw\n\
31 22 179:3 /overlay /.overlay-data rw - ext4 /dev/mmcblk0p3 rw\n";

fn reads() -> StorageSystemReads {
    StorageSystemReads {
        mountinfo: Some(MOUNTINFO.to_string()),
        self_check_files: vec![None, Some("REPAIRS=helios_state_dirs_created\n".to_string()), Some("REPAIRS=x\n".to_string())],
        data_partition_present: true,
        data_mountpoint_present: true,
        overlay_data_mountpoint_present: true,
        ota_pending_present: false,
        ota: OtaProbe { active_label_present: true, reserve_label_present: true, layout: None },
    }
}

fn file_manifest(paths: &[&str]) -> StreamManifest {
    StreamManifest {
        identity: StreamIdentity { id: None, alias: Some("clip".to_string()), hardware_id: None },
        capture: CaptureConfig {
            backend: BackendKind::File,
            handle: BackendHandle::File { paths: paths.iter().map(|p| p.to_string()).collect(), fps: 30, loop_forever: true },
            device_keys: Vec::new(),
            format_fourcc: "MJPG".to_string(),
            controls: Vec::new(),
            enable_tdn_output: false,
            target_fps: None,
        },
        host_buffer: 2,
        preview_jpeg_quality: 80,
        pipeline: PipelineConfig {
            pipeline_enabled: false,
            pipelines: Vec::new(),
            active_pipeline_id: None,
            active_pipeline_output: Some("x".to_string()),
            pipeline_layout: None,
            pipeline_wires: Vec::new(),
        },
        encoder: EncoderRequest { enabled: false, id: None, settings: None },
        decoder: DecoderRequest { enabled: false, id: None },
        shadow_recording_codec: None,
    }
}

#[test]
fn probe_reads_mounts_and_first_self_check_report() {
    let r = reads();
    assert!(storage_reads_ok(&r));
    let snapshot = capture_storage_probe(&r);
    assert_eq!(snapshot.root_fs_type.as_deref(), Some("overlay"));
    assert_eq!(snapshot.data_fs_type.as_deref(), Some("ext4"));
    assert_eq!(snapshot.overlay_data_fs_type.as_deref(), Some("ext4"));
    assert_eq!(snapshot.self_check_repairs, vec!["helios_state_dirs_created".to_string()]);
    let health = probe_storage_health(&r);
    assert!(health.issues.is_empty(), "{:?}", health.issues);
    assert_eq!(health.root_fs_type.as_deref(), Some("overlay"));

    let mut pending = reads();
    pending.ota_pending_present = true;
    pending.self_check_files = vec![Some("REPAIRS=data_partition_mounted\n".to_string())];
    let codes: Vec<&str> = probe_storage_health(&pending).issues.iter().map(|i| i.code).collect();
    assert!(codes.contains(&"ota_pending_confirmation"));
    assert!(codes.contains(&"self_repair_applied"));
}

#[test]
fn mount_fields_with_broken_escapes_are_refused() {
    assert!(mount_field_decodable("/x\\040y"));
    assert!(!mount_field_decodable("/x\\00\u{e9}"));
    assert!(mountinfo_line_decodable("no separator here"));
    assert!(!mountinfo_line_decodable("1 2 3:4 / /x\\00\u{e9} rw - ext4 /dev/a rw"));
    let mut bad = reads();
    bad.mountinfo = Some("1 2 3:4 / /x\\00\u{e9} rw - ext4 /dev/a rw\n".to_string());
    assert!(!storage_reads_ok(&bad));
    bad.mountinfo = None;
    assert!(storage_reads_ok(&bad));
}

#[test]
fn self_check_helpers() {
    assert!(is_benign_self_repair("helios_state_dirs_created"));
    assert!(!is_benign_self_repair("data_partition_mounted"));
    assert_eq!(describe_self_check_codes(&["custom".to_string()]), "custom");
    let layout = OtaLayoutProbe { slot_a_bytes: Some(10), slot_b_bytes: Some(20), ..Default::default() };
    assert_eq!(slot_size_for_marker(&layout, "ROOT_A"), Some(10));
    assert_eq!(slot_size_for_marker(&layout, "ROOT_B"), Some(20));
    assert_eq!(slot_size_for_marker(&layout, "root_a"), None);
}

#[test]
fn replay_media_types_come_from_mime_guess() {
    assert_eq!(file_replay_content_type("/media/clip.MP4"), "video/mp4");
    assert_eq!(file_replay_content_type("/media/frame.png"), "image/png");
    assert_eq!(file_replay_content_type("/media/blob.zzzz"), "application/octet-stream");
    assert!(is_supported_file_replay_path("/media/clip.mov"));
    assert!(is_supported_file_replay_path("/media/clip.H264"));
    assert!(is_supported_file_replay_path("/media/clip.y4m"));
    assert!(!is_supported_file_replay_path("/media/notes.txt"));
    assert!(is_supported_extension("webm"));
    assert!(!is_supported_extension("WEBM"));
}

#[test]
fn media_path_kinds_become_issues() {
    let m = file_manifest(&["a.mp4", "notes.txt", "gone.mp4", "dir"]);
    let kinds = vec![MediaPathKind::File, MediaPathKind::File, MediaPathKind::Missing, MediaPathKind::NotAFile];
    let mut issues = Vec::new();
    validate_file_backend_media_paths(&m, &kinds, &mut issues);
    let got: Vec<(String, &str, String)> = issues.iter().map(|i| (i.path.clone(), i.code, i.message.clone())).collect();
    assert_eq!(
        got,
        vec![
            (
                "/capture/handle/paths/1".to_string(),
                "unsupported_media_type",
                "unsupported media type `text/plain` for file replay path: notes.txt".to_string()
            ),
            ("/capture/handle/paths/2".to_string(), "media_path_not_found", "media path not found: gone.mp4".to_string()),
            ("/capture/handle/paths/3".to_string(), "media_path_not_file", "media path is not a file: dir".to_string()),
        ]
    );
    let mut wrong_handle = file_manifest(&[]);
    wrong_handle.capture.handle = BackendHandle::Virtual;
    let mut handle_issues = Vec::new();
    validate_file_backend_media_paths(&wrong_handle, &Vec::new(), &mut handle_issues);
    assert_eq!(handle_issues.len(), 1);
    assert_eq!(handle_issues[0].code, "invalid_file_handle");
}

#[test]
fn validation_outcome_accepts_only_without_issues() {
    let ids = ReservedPipelineIds { raw: 1, calibration_mode: 2 };
    let normalized = NormalizedStreamManifest { manifest: file_manifest(&["a.mp4"]), warnings: Vec::new() };
    let ok = validation_outcome(normalized.clone(), Vec::new(), &ids).unwrap();
    // The pipeline part is normalized: disabled pipelines keep no selection.
    assert_eq!(ok.manifest.pipeline.active_pipeline_output, None);
    assert_eq!(ok.manifest.capture, normalized.manifest.capture);
    let mut issues = Vec::new();
    push_issue(&mut issues, "/x".to_string(), "bad", "bad thing".to_string());
    let err = validation_outcome(normalized, issues.clone(), &ids).unwrap_err();
    assert_eq!(err.issues, issues);
    let down = runtime_capabilities_unavailable("engine offline");
    assert_eq!(down.issues.len(), 1);
    assert_eq!(down.issues[0].path, "/");
    assert_eq!(down.issues[0].code, "runtime_capabilities_unavailable");
    assert_eq!(down.issues[0].message, "stream runtime capability inventory unavailable: engine offline");
    assert!(down.warnings.is_empty());
}

#[test]
fn issue_builders_append_in_order() {
    let mut issues: Vec<ValidationIssue> = Vec::new();
    push_issue(&mut issues, pointer("/a/", 3, "/b"), "c1", "m1".to_string());
    push_issue_fix(&mut issues, "/z".to_string(), "c2", "m2".to_string(), "do this");
    assert_eq!(issues[0].path, "/a/3/b");
    assert_eq!(issues[0].remediation, None);
    assert_eq!(issues[1].remediation.as_deref(), Some("do this"));
    let mut warnings = Vec::new();
    push_warning(&mut warnings, "/w".to_string(), "w1", "note".to_string());
    assert_eq!((warnings[0].path.as_str(), warnings[0].code, warnings[0].message.as_str()), ("/w", "w1", "note"));
}

#[test]
fn error_bodies_carry_retryable() {
    let body = engine_error_body_with_retryable(Some(EngineErrorCode::Busy), "later".to_string(), Some(true));
    assert_eq!((body.code.as_str(), body.error.as_str(), body.retryable), ("busy", "later", Some(true)));
    assert_eq!(body.engine_code, Some(EngineErrorCode::Busy));
}

#[test]
fn code_point_order_matches_std() {
    for (a, b) in [("a", "b"), ("b", "a"), ("a", "a"), ("", "a"), ("ab", "a"), ("Z", "a"), ("é", "z")] {
        assert_eq!(str_less(a, b), a < b, "{:?} < {:?}", a, b);
    }
}
