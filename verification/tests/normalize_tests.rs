use helios_api::streams::manifest::{
    LayoutSlot, PipelineBinding, PipelineConfig, PipelineLayout, PipelineWire, ReservedPipelineIds, WireEndpoint,
};
use helios_api::streams::normalize::{
    capture_control_value_is_enabled, manifest_controls_require_tdn_output, normalize_file_backend_paths,
    normalize_file_stream_identity, normalize_file_stream_identity_with, normalize_pipeline_output_fields,
    normalize_reserved_pipeline_ids, ControlMeta,
};
use helios_api::streams::validation::{
    BackendHandle, BackendKind, CaptureConfig, ControlAssignment, ControlValue, StreamIdentity, ValidationWarning,
};

const RAW: u128 = 0x0000_0000_0000_4000_8000_0000_0000_0001;
const CAL: u128 = 0x0000_0000_0000_4000_8000_0000_0000_0002;
const A: u128 = 0x1234_5678_9abc_4def_8123_4567_89ab_cdef;

fn capture(backend: BackendKind, paths: &[&str]) -> CaptureConfig {
    CaptureConfig {
        backend,
        handle: BackendHandle::File { paths: paths.iter().map(|p| p.to_string()).collect(), fps: 30, loop_forever: true },
        device_keys: Vec::new(),
        format_fourcc: "MJPG".to_string(),
        controls: Vec::new(),
        enable_tdn_output: false,
        target_fps: None,
    }
}

fn warnings(ws: &[ValidationWarning]) -> Vec<(String, &'static str)> {
    ws.iter().map(|w| (w.path.clone(), w.code)).collect()
}

#[test]
fn file_paths_are_trimmed_and_deduplicated() {
    let mut c = capture(BackendKind::File, &[" /media/a.mp4 ", "", "/media/a.mp4", "/media/b.mp4", "   "]);
    let mut ws = Vec::new();
    normalize_file_backend_paths(&mut c, &mut ws);
    match &c.handle {
        BackendHandle::File { paths, fps, loop_forever } => {
            assert_eq!(paths, &vec!["/media/a.mp4".to_string(), "/media/b.mp4".to_string()]);
            assert_eq!((*fps, *loop_forever), (30, true));
        },
        _ => panic!("handle changed variant"),
    }
    assert_eq!(
        warnings(&ws),
        vec![
            ("/capture/handle/paths/0".to_string(), "path_trimmed"),
            ("/capture/handle/paths/1".to_string(), "empty_path_removed"),
            ("/capture/handle/paths/2".to_string(), "duplicate_path_removed"),
            ("/capture/handle/paths/4".to_string(), "empty_path_removed"),
        ]
    );
    assert_eq!(ws[0].message, "trimmed surrounding whitespace from file path");
}

#[test]
fn other_backends_keep_their_paths() {
    let mut c = capture(BackendKind::V4l2, &[" x ", ""]);
    let before = c.clone();
    let mut ws = Vec::new();
    normalize_file_backend_paths(&mut c, &mut ws);
    assert_eq!(c, before);
    assert!(ws.is_empty());
}

#[test]
fn reserved_pipeline_is_removed_with_a_warning_per_place() {
    let mut cfg = PipelineConfig {
        pipeline_enabled: true,
        pipelines: vec![
            PipelineBinding { pipeline_id: CAL, pipeline_output: None, has_inline_graph: false },
            PipelineBinding { pipeline_id: A, pipeline_output: None, has_inline_graph: false },
        ],
        active_pipeline_id: Some(CAL),
        active_pipeline_output: Some("x".to_string()),
        pipeline_layout: Some(PipelineLayout {
            rows: 1,
            columns: 2,
            slots: vec![
                LayoutSlot { row: 0, column: 0, pipeline_id: Some(A), output_key: None },
                LayoutSlot { row: 0, column: 1, pipeline_id: Some(CAL), output_key: None },
            ],
        }),
        pipeline_wires: vec![PipelineWire {
            from: WireEndpoint { pipeline_id: CAL, output_key: None, port: None },
            to: WireEndpoint { pipeline_id: A, output_key: None, port: None },
        }],
    };
    let mut ws = Vec::new();
    normalize_reserved_pipeline_ids(&mut cfg, &ReservedPipelineIds { raw: RAW, calibration_mode: CAL }, &mut ws);
    assert_eq!(
        warnings(&ws),
        vec![
            ("/pipelines".to_string(), "reserved_pipeline_removed"),
            ("/activePipelineId".to_string(), "reserved_pipeline_removed"),
            ("/pipelineLayout/slots/1".to_string(), "reserved_pipeline_removed"),
            ("/pipelineWires".to_string(), "reserved_pipeline_removed"),
        ]
    );
    assert!(cfg.pipeline_enabled);
    assert_eq!(cfg.pipelines.len(), 1);
    assert_eq!(cfg.active_pipeline_id, None);
    assert!(cfg.pipeline_wires.is_empty());
    assert_eq!(cfg.pipeline_layout.unwrap().slots[1].pipeline_id, None);
}

#[test]
fn output_selectors_are_trimmed_with_warnings() {
    let mut cfg = PipelineConfig {
        pipeline_enabled: true,
        pipelines: vec![PipelineBinding { pipeline_id: A, pipeline_output: Some(" out ".to_string()), has_inline_graph: false }],
        active_pipeline_id: Some(A),
        active_pipeline_output: Some("   ".to_string()),
        pipeline_layout: Some(PipelineLayout {
            rows: 1,
            columns: 1,
            slots: vec![LayoutSlot { row: 0, column: 0, pipeline_id: Some(A), output_key: Some("ok".to_string()) }],
        }),
        pipeline_wires: vec![PipelineWire {
            from: WireEndpoint { pipeline_id: A, output_key: Some("k ".to_string()), port: Some(" p".to_string()) },
            to: WireEndpoint { pipeline_id: RAW, output_key: None, port: None },
        }],
    };
    let mut ws = Vec::new();
    normalize_pipeline_output_fields(&mut cfg, &mut ws);
    assert_eq!(
        warnings(&ws),
        vec![
            ("/activePipelineOutput".to_string(), "output_trimmed"),
            ("/pipelines/0/pipelineOutput".to_string(), "output_trimmed"),
            ("/pipelineWires/0/from/outputKey".to_string(), "output_trimmed"),
            ("/pipelineWires/0/from/port".to_string(), "output_trimmed"),
        ]
    );
    assert_eq!(ws[0].message, "active pipeline output was trimmed");
    assert_eq!(cfg.active_pipeline_output, None);
    assert_eq!(cfg.pipelines[0].pipeline_output.as_deref(), Some("out"));
    assert_eq!(cfg.pipeline_wires[0].from.output_key.as_deref(), Some("k"));
    assert_eq!(cfg.pipeline_wires[0].from.port.as_deref(), Some("p"));
}

#[test]
fn file_replays_get_an_alias_from_their_id() {
    let mut ident = StreamIdentity { id: Some(A), alias: Some("  ".to_string()), hardware_id: Some("hw".to_string()) };
    normalize_file_stream_identity_with(&mut ident, BackendKind::File, 7);
    assert_eq!(ident.alias.as_deref(), Some("media-replay-12345678-9abc-4def-8123-456789abcdef"));
    assert_eq!(ident.id, Some(A));
    assert_eq!(ident.hardware_id.as_deref(), Some("hw"));

    let mut fresh = StreamIdentity { id: None, alias: None, hardware_id: None };
    normalize_file_stream_identity_with(&mut fresh, BackendKind::File, 0xff);
    assert_eq!(fresh.alias.as_deref(), Some("media-replay-00000000-0000-0000-0000-0000000000ff"));

    let mut named = StreamIdentity { id: None, alias: Some("clip".to_string()), hardware_id: None };
    normalize_file_stream_identity_with(&mut named, BackendKind::File, 1);
    assert_eq!(named.alias.as_deref(), Some("clip"));

    let mut camera = StreamIdentity { id: None, alias: None, hardware_id: None };
    normalize_file_stream_identity_with(&mut camera, BackendKind::V4l2, 1);
    assert_eq!(camera.alias, None);
}

#[test]
fn file_replays_without_id_get_a_random_alias() {
    let mut a = StreamIdentity { id: None, alias: None, hardware_id: None };
    let mut b = a.clone();
    normalize_file_stream_identity(&mut a, BackendKind::File);
    normalize_file_stream_identity(&mut b, BackendKind::File);
    let (a, b) = (a.alias.unwrap(), b.alias.unwrap());
    assert!(a.starts_with("media-replay-") && a.len() == "media-replay-".len() + 36);
    assert_ne!(a, b);
}

#[test]
fn control_values_count_as_enabled_when_nonzero() {
    assert!(capture_control_value_is_enabled(ControlValue::Int(-1)));
    assert!(!capture_control_value_is_enabled(ControlValue::Int(0)));
    assert!(capture_control_value_is_enabled(ControlValue::Uint(3)));
    assert!(!capture_control_value_is_enabled(ControlValue::Uint(0)));
    assert!(capture_control_value_is_enabled(ControlValue::Float { bits: 0.5f64.to_bits() }));
    assert!(!capture_control_value_is_enabled(ControlValue::Float { bits: (-0.0f64).to_bits() }));
    assert!(capture_control_value_is_enabled(ControlValue::Bool(true)));
    assert!(!capture_control_value_is_enabled(ControlValue::Unset));
}

#[test]
fn tdn_output_is_needed_by_an_enabled_control_that_asks_for_it() {
    let metas = vec![
        ControlMeta { id: 1, requires_tdn_output: true },
        ControlMeta { id: 2, requires_tdn_output: false },
        ControlMeta { id: 1, requires_tdn_output: false },
    ];
    let off = vec![ControlAssignment { id: 1, value: ControlValue::Int(0) }, ControlAssignment { id: 2, value: ControlValue::Int(5) }];
    assert!(!manifest_controls_require_tdn_output(&off, &metas));
    let on = vec![ControlAssignment { id: 1, value: ControlValue::Bool(true) }];
    assert!(manifest_controls_require_tdn_output(&on, &metas));
    let unknown = vec![ControlAssignment { id: 9, value: ControlValue::Bool(true) }];
    assert!(!manifest_controls_require_tdn_output(&unknown, &metas));
}
