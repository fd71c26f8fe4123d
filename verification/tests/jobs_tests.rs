use helios_api::streams::autostart::{
    autostart_concurrency, autostart_queue, autostart_step, is_same_running_stream, is_start_conflict,
    release_device_keys, reserve_device_keys, AutostartEntry, AutostartRecord, AutostartStep, StartAnswer,
};
use helios_api::streams::bench::{
    bench_dir_name, bench_file_name, bench_status_answer, bench_warning, default_restore_existing,
    default_sample_ms, default_target_fps, is_benchmark_stream, mode_subject, modes_at_resolution,
    no_modes_warning, resolution_label, sample_window_filled, sample_window_from_req, select_bench_modes,
    BenchFailure, BenchJobStatus, BenchMode, BenchStatusAnswer, SampleWindow, SensorBenchmarkProgress,
};
use helios_api::streams::identity::{identity_conflict_message, shared_token, stream_identity_token_set};
use helios_api::streams::profiling::{
    active_pipeline_output_for_metrics, check_flamegraph_path, flamegraph_refusal_message,
    pipeline_metrics_need_host_output_priming, profile_switch, profile_window, FlamegraphRefusal, PipelineMetricsShape,
};
use helios_api::streams::manifest::{PipelineBinding, PipelineConfig};
use helios_api::streams::wiring::{
    controls_label, host_bridge_declares_input, host_input_keys, inspect_host_input_usage, GraphFacts, HostControls,
};

fn keys(v: &[&str]) -> Vec<String> {
    v.iter().map(|k| k.to_string()).collect()
}

#[test]
fn autostart_concurrency_is_bounded() {
    assert_eq!(autostart_concurrency(None), 2);
    assert_eq!(autostart_concurrency(Some("5")), 5);
    assert_eq!(autostart_concurrency(Some("+3")), 3);
    assert_eq!(autostart_concurrency(Some("0")), 1);
    assert_eq!(autostart_concurrency(Some("99")), 8);
    assert_eq!(autostart_concurrency(Some("four")), 2);
    assert_eq!(autostart_concurrency(Some(" 4")), 2);
}

#[test]
fn autostart_queue_takes_boot_streams_with_their_ids() {
    let record = |camera: &str, has_manifest, internal, boot, manifest_id, record_id| AutostartRecord {
        camera_id: camera.to_string(),
        has_manifest,
        internal,
        start_on_boot: boot,
        manifest_id,
        record_stream_id: record_id,
    };
    let records = vec![
        record("a", true, false, true, None, Some(10)),
        record("b", true, true, true, Some(2), None),
        record("c", true, false, false, Some(3), None),
        record("d", false, false, true, Some(4), None),
        record("e", true, false, true, Some(5), Some(50)),
    ];
    assert_eq!(
        autostart_queue(&records),
        vec![AutostartEntry { record: 0, stream_id: Some(10) }, AutostartEntry { record: 4, stream_id: Some(5) }]
    );
}

#[test]
fn device_keys_are_held_once_and_given_back() {
    let mut reserved = keys(&["cam0"]);
    assert_eq!(reserve_device_keys(&mut reserved, &keys(&["cam0", "x"]), false), None);
    assert_eq!(reserved, keys(&["cam0"]));
    let taken = reserve_device_keys(&mut reserved, &keys(&["cam1", "cam1", "aux"]), false).expect("free keys");
    assert_eq!(taken, keys(&["cam1", "aux"]));
    assert_eq!(reserved, keys(&["cam0", "cam1", "aux"]));
    release_device_keys(&mut reserved, &taken);
    assert_eq!(reserved, keys(&["cam0"]));
    assert_eq!(reserve_device_keys(&mut reserved, &keys(&["cam0", "media-file"]), false), Some(Vec::new()));
    assert_eq!(reserve_device_keys(&mut reserved, &keys(&["cam0"]), true), Some(Vec::new()));
    assert_eq!(reserved, keys(&["cam0"]));
}

#[test]
fn start_conflicts_are_recognised() {
    assert!(is_start_conflict("Stream Already Exists for camera"));
    assert!(is_start_conflict("device already in use"));
    assert!(is_start_conflict("CONFLICT"));
    assert!(!is_start_conflict("bad mode"));
    assert_eq!(
        autostart_step(&StartAnswer::Refused { reason: "conflict with stream".to_string() }),
        AutostartStep::FindRunning
    );
    assert_eq!(autostart_step(&StartAnswer::Refused { reason: "bad".to_string() }), AutostartStep::GiveUp);
    assert_eq!(autostart_step(&StartAnswer::Started { stream_id: 9 }), AutostartStep::Record { stream_id: 9 });
    assert_eq!(autostart_step(&StartAnswer::Unclear), AutostartStep::AwaitStart);
}

#[test]
fn running_stream_match_by_target_id_or_alias() {
    assert!(is_same_running_stream(true, None, None, &None, &None));
    assert!(is_same_running_stream(false, Some(3), Some(3), &None, &None));
    assert!(!is_same_running_stream(false, None, None, &None, &None));
    assert!(is_same_running_stream(false, None, Some(1), &Some(" cam ".to_string()), &Some("cam".to_string())));
    assert!(!is_same_running_stream(false, None, Some(1), &Some("  ".to_string()), &Some("".to_string())));
}

#[test]
fn bench_defaults() {
    assert_eq!(default_target_fps(), 120);
    assert_eq!(default_sample_ms(), 1500);
    assert!(default_restore_existing());
    assert_eq!(bench_dir_name(), "sensor-benchmarks");
}

#[test]
fn bench_modes_by_resolution_and_key() {
    let m = |key, w, h| BenchMode { key, fourcc: 0x4745_504a, width: w, height: h };
    let modes = vec![m(1, 1280, 720), m(2, 640, 480), m(3, 1280, 720)];
    assert_eq!(modes_at_resolution(&modes, 1280, 720), vec![m(1, 1280, 720), m(3, 1280, 720)]);
    assert!(modes_at_resolution(&modes, 1, 1).is_empty());
    assert_eq!(select_bench_modes(&modes, &Vec::new()), modes);
    assert_eq!(select_bench_modes(&modes, &vec![3, 2]), vec![m(2, 640, 480), m(3, 1280, 720)]);
}

#[test]
fn bench_texts() {
    assert_eq!(resolution_label(1280, 720), "1280x720");
    assert_eq!(no_modes_warning(640, 0), "no modes for 640x0");
    assert_eq!(bench_warning("MJPG", &BenchFailure::Start, "busy"), "MJPG: start failed: busy");
    let subject = mode_subject("NV12", "1280x720");
    assert_eq!(
        bench_warning(&subject, &BenchFailure::DecoderSet { implementation: "nv12-luma".to_string() }, "nack"),
        "NV12 1280x720: decoder nv12-luma set failed: nack"
    );
    assert_eq!(
        bench_warning("H264", &BenchFailure::EncoderInputDecoderSet { implementation: "h264".to_string() }, "e"),
        "H264: encoder input decoder h264 set failed: e"
    );
    assert_eq!(bench_file_name(1), "00000000-0000-0000-0000-000000000001.json");
}

#[test]
fn sample_window_rules() {
    assert_eq!(sample_window_from_req(Some(0), Some(50), 1500), SampleWindow { frames: 1, timeout_ms: 100 });
    assert_eq!(sample_window_from_req(Some(30), Some(4000), 1500), SampleWindow { frames: 30, timeout_ms: 4000 });
    assert_eq!(sample_window_from_req(Some(30), None, 20), SampleWindow { frames: 0, timeout_ms: 100 });
    assert_eq!(sample_window_from_req(None, Some(9), 1500), SampleWindow { frames: 0, timeout_ms: 1500 });
    let w = SampleWindow { frames: 5, timeout_ms: 100 };
    assert!(sample_window_filled(w, 10, 15));
    assert!(!sample_window_filled(w, 10, 14));
    assert!(!sample_window_filled(w, 10, 3));
    assert!(!sample_window_filled(SampleWindow { frames: 0, timeout_ms: 100 }, 0, 99));
}

#[test]
fn sensor_benchmark_progress_steps() {
    let mut p = SensorBenchmarkProgress::start();
    assert_eq!((p.total_modes, p.completed_modes), (0, 0));
    p.set_total(3);
    p.at_mode(1, "NV12".to_string(), "1280x720".to_string());
    assert_eq!(p.completed_modes, 1);
    assert_eq!(p.current_format.as_deref(), Some("NV12"));
    p.finish();
    assert_eq!((p.total_modes, p.completed_modes), (3, 3));
    assert!(p.current_format.is_none() && p.current_resolution.is_none());
}

#[test]
fn benchmark_status_and_streams() {
    assert_eq!(bench_status_answer(&BenchJobStatus::Running), BenchStatusAnswer::Running);
    assert_eq!(
        bench_status_answer(&BenchJobStatus::Completed { path: "/d/x.json".to_string() }),
        BenchStatusAnswer::ReadResult { path: "/d/x.json".to_string() }
    );
    assert!(is_benchmark_stream(&BenchJobStatus::Running, Some(4), 4));
    assert!(!is_benchmark_stream(&BenchJobStatus::Failed { error: "e".to_string() }, Some(4), 4));
    assert!(!is_benchmark_stream(&BenchJobStatus::Running, None, 4));
}

#[test]
fn identity_tokens_and_conflicts() {
    let a = stream_identity_token_set(1, &Some("cam".to_string()), &Some("cam".to_string()), false);
    assert_eq!(a.len(), 2);
    let file = stream_identity_token_set(2, &Some("media-file".to_string()), &Some("hw".to_string()), true);
    assert_eq!(file.len(), 2);
    assert!(!file.iter().any(|t| t == "media-file"));
    let b = stream_identity_token_set(3, &Some("zeta".to_string()), &Some("cam".to_string()), false);
    assert_eq!(shared_token(&a, &b).as_deref(), Some("cam"));
    let c = vec!["b".to_string(), "a".to_string(), "c".to_string()];
    let d = vec!["c".to_string(), "b".to_string()];
    assert_eq!(shared_token(&c, &d).as_deref(), Some("b"));
    assert_eq!(shared_token(&c, &vec!["q".to_string()]), None);
    assert_eq!(
        identity_conflict_message("cam", true, 3, "ov9782"),
        "stream identity token already in use: token=\"cam\" conflicts with running stream id=\"00000000-0000-0000-0000-000000000003\" (camera=\"ov9782\")"
    );
}

#[test]
fn empty_pipeline_metrics_request_priming() {
    let shape = PipelineMetricsShape { node_count: 0, group_count: None, edge_count: None, has_flamegraph: false };
    assert!(pipeline_metrics_need_host_output_priming(Some(shape)));
    assert!(!pipeline_metrics_need_host_output_priming(None));
}

#[test]
fn populated_pipeline_metrics_skip_priming() {
    let shape = PipelineMetricsShape { node_count: 1, group_count: None, edge_count: None, has_flamegraph: false };
    assert!(!pipeline_metrics_need_host_output_priming(Some(shape)));
}

#[test]
fn group_only_pipeline_metrics_skip_priming() {
    let shape = PipelineMetricsShape { node_count: 0, group_count: Some(1), edge_count: None, has_flamegraph: false };
    assert!(!pipeline_metrics_need_host_output_priming(Some(shape)));
    let empty_maps = PipelineMetricsShape { node_count: 0, group_count: Some(0), edge_count: Some(0), has_flamegraph: false };
    assert!(pipeline_metrics_need_host_output_priming(Some(empty_maps)));
}

#[test]
fn profiling_rules() {
    assert_eq!(profile_window(None, None), (500, 5_000));
    assert_eq!(profile_window(Some(90_000), Some(10)), (30_000, 250));
    assert_eq!(profile_window(Some(0), Some(500_000)), (0, 120_000));
    assert!(profile_switch(None));
    assert!(!profile_switch(Some(false)));
    assert_eq!(check_flamegraph_path("/tmp/fg.svg"), Ok(()));
    assert_eq!(check_flamegraph_path("tmp/fg.svg"), Err(FlamegraphRefusal::NotAbsolute));
    assert_eq!(check_flamegraph_path("/tmp/fg.png"), Err(FlamegraphRefusal::NotSvg));
    assert_eq!(check_flamegraph_path("/home/fg.svg"), Err(FlamegraphRefusal::NotAllowed));
    assert_eq!(flamegraph_refusal_message(FlamegraphRefusal::NotSvg), "flamegraph path is not an svg");
    let cfg = PipelineConfig {
        pipeline_enabled: true,
        pipelines: vec![PipelineBinding { pipeline_id: 4, pipeline_output: Some(" seg ".to_string()), has_inline_graph: false }],
        active_pipeline_id: Some(4),
        active_pipeline_output: None,
        pipeline_layout: None,
        pipeline_wires: Vec::new(),
    };
    assert_eq!(active_pipeline_output_for_metrics(&cfg).as_deref(), Some("seg"));
    let bare = PipelineConfig { active_pipeline_id: None, active_pipeline_output: Some(" x ".to_string()), ..cfg };
    assert_eq!(active_pipeline_output_for_metrics(&bare).as_deref(), Some("x"));
}

fn bridge_node(id: &str, outputs: &[&str], spec: Option<&str>) -> helios_api::streams::wiring::GraphNodeFacts {
    helios_api::streams::wiring::GraphNodeFacts {
        id: Some(id.to_string()),
        outputs: outputs.iter().map(|o| o.to_string()).collect(),
        bridge_outputs: spec.map(str::to_string),
    }
}

fn edge(node: u64, port: &str) -> helios_api::streams::wiring::GraphEdgeFacts {
    helios_api::streams::wiring::GraphEdgeFacts { from_node: Some(node), from_port: Some(port.to_string()) }
}

#[test]
fn host_input_wiring_is_reported() {
    let keys = host_input_keys(HostControls::Crop);
    let label = controls_label(HostControls::Crop);
    let unresolved = inspect_host_input_usage(&GraphFacts::Unresolved, &keys, &label);
    assert!(!unresolved.used);
    assert_eq!(unresolved.warnings, vec!["Unable to verify ROI wiring for the active graph; crop controls may have no effect.".to_string()]);

    let no_bridge = GraphFacts::Graph { nodes: vec![bridge_node("cv.detect", &[], None)], edges: vec![edge(0, "roi_x")] };
    assert_eq!(
        inspect_host_input_usage(&no_bridge, &keys, &label).warnings,
        vec!["Active graph has no io.host_bridge node; crop controls are not wired.".to_string()]
    );

    let nodes = vec![bridge_node("cv.detect", &[], None), bridge_node("main:io.host_bridge", &[], None)];
    let partial = GraphFacts::Graph { nodes: nodes.clone(), edges: vec![edge(1, "roi_x"), edge(1, "roi_y"), edge(0, "roi_w")] };
    let usage = inspect_host_input_usage(&partial, &keys, &label);
    assert!(!usage.used);
    assert_eq!(usage.warnings, vec!["ROI wiring is partial in the active graph (missing: roi_w, roi_h).".to_string()]);

    let full = GraphFacts::Graph {
        nodes: nodes.clone(),
        edges: vec![edge(1, "roi_x"), edge(1, "roi_y"), edge(1, "roi_w"), edge(1, "roi_h"), edge(1, "roi_x")],
    };
    let usage = inspect_host_input_usage(&full, &keys, &label);
    assert!(usage.used);
    assert!(usage.warnings.is_empty());

    let none = GraphFacts::Graph { nodes, edges: vec![edge(7, "roi_x")] };
    assert_eq!(
        inspect_host_input_usage(&none, &keys, &label).warnings,
        vec!["ROI inputs are not consumed by the active graph. Crop controls will not affect pipeline detections/overlay.".to_string()]
    );

    let declared = GraphFacts::Graph {
        nodes: vec![bridge_node("io.host_bridge", &["crosshair_x"], Some(" order_mode:string , draw_crosshair:bool,"))],
        edges: Vec::new(),
    };
    assert!(host_bridge_declares_input(&declared, "draw_crosshair"));
    assert!(host_bridge_declares_input(&declared, "crosshair_x"));
    assert!(!host_bridge_declares_input(&declared, "roi_x"));
    assert!(!host_bridge_declares_input(&GraphFacts::NotAGraph, "roi_x"));
}

#[test]
fn benchmark_device_and_codecs() {
    use_bench_helpers();
}

fn use_bench_helpers() {
    let backend = |kind, handle_matches| helios_api::streams::bench::BackendFacts { kind, handle_matches };
    let devices = vec![
        helios_api::streams::bench::DeviceFacts {
            keys: keys(&["usb-1"]),
            backends: vec![backend(helios_api::streams::validation::BackendKind::V4l2, true)],
        },
        helios_api::streams::bench::DeviceFacts {
            keys: keys(&["csi-0", "ov9782"]),
            backends: vec![
                backend(helios_api::streams::validation::BackendKind::Libcamera, false),
                backend(helios_api::streams::validation::BackendKind::Libcamera, true),
            ],
        },
    ];
    let lib = helios_api::streams::validation::BackendKind::Libcamera;
    assert_eq!(helios_api::streams::bench::find_matching_backend(&devices, lib, &keys(&["ov9782"])), Some((1, 1)));
    assert_eq!(helios_api::streams::bench::find_matching_backend(&devices, lib, &Vec::new()), None);
    assert_eq!(
        helios_api::streams::bench::find_matching_backend(&devices, helios_api::streams::validation::BackendKind::V4l2, &Vec::new()),
        Some((0, 0))
    );
    assert_eq!(helios_api::streams::bench::bench_capture_rate(lib, 120), (Some(120), None));
    assert_eq!(
        helios_api::streams::bench::bench_capture_rate(helios_api::streams::validation::BackendKind::V4l2, 0),
        (None, None)
    );
    assert_eq!(helios_api::streams::bench::restore_warning("busy"), "failed to restore stream: busy");

    let desc = |decoder, input: &str, name: &str| helios_api::streams::bench::CodecDesc {
        decoder,
        input: input.to_string(),
        impl_name: name.to_string(),
    };
    let descs = vec![
        desc(true, "MJPG", "turbojpeg"),
        desc(true, "MJPG", "ffmpeg"),
        desc(false, "RG24", "turbojpeg"),
        desc(true, "H264", "h264"),
        desc(true, "MJPG", "turbojpeg"),
        desc(true, "MJPG", "Zed"),
    ];
    let groups = helios_api::streams::bench::codec_impls_by_input(&descs, true);
    assert_eq!(groups.len(), 2);
    assert_eq!(groups[0].input, "MJPG");
    assert_eq!(groups[0].impls, keys(&["Zed", "ffmpeg", "turbojpeg"]));
    assert_eq!(groups[1].impls, keys(&["h264"]));
    let encoders = helios_api::streams::bench::codec_impls_by_input(&descs, false);
    assert_eq!(encoders.len(), 1);
    assert_eq!(encoders[0].impls, keys(&["turbojpeg"]));
    let mut names = keys(&["a", "c"]);
    helios_api::streams::bench::insert_sorted_name(&mut names, "b".to_string());
    helios_api::streams::bench::insert_sorted_name(&mut names, "c".to_string());
    assert_eq!(names, keys(&["a", "b", "c"]));
}
