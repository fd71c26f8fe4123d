use helios_api::streams::edits::{
    apply_layout_selection, apply_output_selection, apply_wires, bind_pipeline_graph, camera_id_for_manifest,
    check_graph_target, clear_calibration_slots, edit_route, is_engine_unavailable, live_edit_reply,
    normalize_output_for_pipeline, output_view_pipeline, patch_route, single_view_slot_pipeline_id,
    stored_edit_reply, EditRoute, GraphEdit, IoErrorKind, TransportError,
};
use helios_api::streams::engine_reply::{EngineErrorCode, EngineReply};
use helios_api::streams::grid::{
    apply_effective_pipeline_layout, preferred_pipeline_output, promote_single_view_pipeline_selection,
    recover_from_missing_selected_output,
};
use helios_api::streams::manifest::{
    LayoutSlot, PipelineBinding, PipelineConfig, PipelineLayout, PipelineWire, ReservedPipelineIds, WireEndpoint,
};
use helios_api::streams::validation::{BackendHandle, BackendKind, CaptureConfig, StreamIdentity};

const RAW: u128 = 0x0000_0000_0000_4000_8000_0000_0000_0001;
const CALIBRATION: u128 = 0x0000_0000_0000_4000_8000_0000_0000_0002;

fn ids() -> ReservedPipelineIds {
    ReservedPipelineIds { raw: RAW, calibration_mode: CALIBRATION }
}

fn binding(id: u128, output: Option<&str>) -> PipelineBinding {
    PipelineBinding { pipeline_id: id, pipeline_output: output.map(str::to_string), has_inline_graph: false }
}

fn slot(row: u8, column: u8, id: Option<u128>, output: Option<&str>) -> LayoutSlot {
    LayoutSlot { row, column, pipeline_id: id, output_key: output.map(str::to_string) }
}

fn config(enabled: bool, pipelines: Vec<PipelineBinding>, active: Option<u128>, layout: Option<PipelineLayout>) -> PipelineConfig {
    PipelineConfig {
        pipeline_enabled: enabled,
        pipelines,
        active_pipeline_id: active,
        active_pipeline_output: None,
        pipeline_layout: layout,
        pipeline_wires: Vec::new(),
    }
}

#[test]
fn single_view_falls_back_to_first_shown_cell() {
    let layout = PipelineLayout { rows: 1, columns: 1, slots: vec![slot(0, 0, None, None), slot(0, 0, Some(5), None)] };
    let cfg = config(true, vec![binding(5, None)], None, Some(layout));
    assert_eq!(single_view_slot_pipeline_id(&cfg), Some(5));
    let grid = PipelineLayout { rows: 2, columns: 2, slots: vec![slot(0, 0, Some(5), None)] };
    let cfg = config(true, vec![binding(5, None)], None, Some(grid));
    assert_eq!(single_view_slot_pipeline_id(&cfg), None);
    assert_eq!(output_view_pipeline(&cfg), Some(5));
}

#[test]
fn raw_undistorted_selection_switches_pipelines_on() {
    let mut cfg = config(false, Vec::new(), None, None);
    apply_output_selection(&mut cfg, Some(" Undistorted ".to_string()), &ids());
    assert!(cfg.pipeline_enabled);
    assert_eq!(cfg.active_pipeline_output.as_deref(), Some(" Undistorted "));

    let mut cfg = config(false, Vec::new(), None, None);
    apply_output_selection(&mut cfg, Some("raw".to_string()), &ids());
    assert!(!cfg.pipeline_enabled);
}

#[test]
fn output_selection_reaches_binding_active_and_single_cell() {
    let layout = PipelineLayout { rows: 1, columns: 1, slots: vec![slot(0, 0, Some(7), None)] };
    let mut cfg = config(true, vec![binding(3, Some("a")), binding(7, None)], Some(7), Some(layout));
    apply_output_selection(&mut cfg, Some("overlay".to_string()), &ids());
    assert_eq!(cfg.active_pipeline_output.as_deref(), Some("overlay"));
    assert_eq!(cfg.pipelines[1].pipeline_output.as_deref(), Some("overlay"));
    assert_eq!(cfg.pipelines[0].pipeline_output.as_deref(), Some("a"));
    assert_eq!(cfg.pipeline_layout.unwrap().slots[0].output_key.as_deref(), Some("overlay"));
}

#[test]
fn output_selection_for_shown_pipeline_leaves_active_output() {
    let layout = PipelineLayout { rows: 1, columns: 1, slots: vec![slot(0, 0, Some(9), None)] };
    let mut cfg = config(true, vec![binding(7, None), binding(9, None)], Some(7), Some(layout));
    cfg.active_pipeline_output = Some("keep".to_string());
    apply_output_selection(&mut cfg, Some("mask".to_string()), &ids());
    assert_eq!(cfg.active_pipeline_output.as_deref(), Some("keep"));
    assert_eq!(cfg.pipelines[1].pipeline_output.as_deref(), Some("mask"));
}

#[test]
fn engine_selection_falls_back_to_trimmed_value() {
    assert_eq!(normalize_output_for_pipeline(Some("x".to_string()), Err(())), Some("x".to_string()));
    assert_eq!(normalize_output_for_pipeline(Some("x".to_string()), Ok(Some("raw".to_string()))), Some("raw".to_string()));
    assert_eq!(normalize_output_for_pipeline(Some("x".to_string()), Ok(None)), None);
}

#[test]
fn layout_request_binds_cell_pipelines_and_retargets_active() {
    let mut cfg = config(false, vec![binding(4, Some("four"))], Some(4), None);
    let layout = PipelineLayout {
        rows: 1,
        columns: 2,
        slots: vec![slot(0, 0, Some(9), Some(" seg ")), slot(0, 1, Some(RAW), None), slot(0, 0, Some(9), None)],
    };
    apply_layout_selection(&mut cfg, Some(layout), &ids());
    assert!(cfg.pipeline_enabled);
    assert_eq!(cfg.pipelines, vec![binding(4, Some("four")), binding(9, None)]);
    assert_eq!(cfg.active_pipeline_id, Some(9));
    assert_eq!(cfg.active_pipeline_output, None);
}

#[test]
fn layout_request_keeps_active_pipeline_it_shows() {
    let mut cfg = config(true, vec![binding(4, None), binding(9, None)], Some(4), None);
    cfg.active_pipeline_output = Some("out".to_string());
    let layout = PipelineLayout { rows: 1, columns: 2, slots: vec![slot(0, 0, Some(9), None), slot(0, 1, Some(4), None)] };
    apply_layout_selection(&mut cfg, Some(layout), &ids());
    assert_eq!(cfg.active_pipeline_id, Some(4));
    assert_eq!(cfg.active_pipeline_output.as_deref(), Some("out"));
}

#[test]
fn layout_request_takes_raw_cell_output() {
    let mut cfg = config(true, Vec::new(), None, None);
    let layout = PipelineLayout { rows: 1, columns: 1, slots: vec![slot(0, 0, Some(RAW), Some(" undistorted"))] };
    apply_layout_selection(&mut cfg, Some(layout), &ids());
    assert!(cfg.pipelines.is_empty());
    assert_eq!(cfg.active_pipeline_id, Some(RAW));
    assert_eq!(cfg.active_pipeline_output.as_deref(), Some("undistorted"));
}

#[test]
fn layout_request_without_grid_drops_it() {
    let layout = PipelineLayout { rows: 1, columns: 1, slots: vec![slot(0, 0, Some(4), None)] };
    let mut cfg = config(false, vec![binding(4, None)], Some(4), Some(layout));
    apply_layout_selection(&mut cfg, None, &ids());
    assert!(cfg.pipeline_layout.is_none());
    assert!(!cfg.pipeline_enabled);
    assert_eq!(cfg.active_pipeline_id, Some(4));
}

#[test]
fn calibration_cells_are_emptied() {
    let mut layout = PipelineLayout {
        rows: 1,
        columns: 2,
        slots: vec![slot(0, 0, Some(CALIBRATION), Some("x")), slot(0, 1, Some(4), Some("y"))],
    };
    clear_calibration_slots(&mut layout, &ids());
    assert_eq!(layout.slots, vec![slot(0, 0, None, None), slot(0, 1, Some(4), Some("y"))]);
}

#[test]
fn wires_switch_pipelines_on() {
    let mut cfg = config(false, Vec::new(), None, None);
    apply_wires(&mut cfg, Vec::new());
    assert!(!cfg.pipeline_enabled);
    let wire = PipelineWire {
        from: WireEndpoint { pipeline_id: 1, output_key: None, port: None },
        to: WireEndpoint { pipeline_id: 2, output_key: None, port: None },
    };
    apply_wires(&mut cfg, vec![wire.clone()]);
    assert!(cfg.pipeline_enabled);
    assert_eq!(cfg.pipeline_wires, vec![wire]);
}

#[test]
fn graph_binding_appends_and_activates() {
    let mut cfg = config(false, vec![binding(3, Some("a"))], None, None);
    let k = bind_pipeline_graph(&mut cfg, 8, &Some("overlay".to_string()), &ids());
    assert_eq!(k, 1);
    assert_eq!(cfg.pipelines[1], binding(8, Some("overlay")));
    assert!(cfg.pipeline_enabled);
    assert_eq!(cfg.active_pipeline_id, Some(8));
    assert_eq!(cfg.active_pipeline_output.as_deref(), Some("overlay"));

    let k = bind_pipeline_graph(&mut cfg, 3, &None, &ids());
    assert_eq!(k, 0);
    assert_eq!(cfg.pipelines[0], binding(3, Some("a")));
    assert_eq!(cfg.active_pipeline_id, Some(8));
}

#[test]
fn graph_target_must_be_given_and_unreserved() {
    let err = check_graph_target(None, &ids(), GraphEdit::Graph).unwrap_err();
    assert_eq!(err.status, 400);
    assert_eq!(err.body.unwrap().error, "pipeline_id is required");
    let err = check_graph_target(Some(RAW), &ids(), GraphEdit::Patch).unwrap_err();
    let body = err.body.unwrap();
    assert_eq!(body.code, "invalid_state");
    assert_eq!(body.error, "reserved pipeline ids cannot be patched via /streams/{id}/pipeline/graph/patch");
    assert_eq!(check_graph_target(Some(5), &ids(), GraphEdit::Graph), Ok(5));
}

#[test]
fn edit_route_follows_engine_answer() {
    assert_eq!(edit_route(&Ok(EngineReply::Ack), true), EditRoute::PersistLive);
    assert_eq!(
        edit_route(&Ok(EngineReply::Nack { code: EngineErrorCode::NotFound, reason: "x".to_string() }), true),
        EditRoute::PersistStored
    );
    match edit_route(&Ok(EngineReply::Nack { code: EngineErrorCode::Busy, reason: "busy now".to_string() }), true) {
        EditRoute::Reply(h) => {
            assert_eq!(h.status, 400);
            let body = h.body.unwrap();
            assert_eq!(body.code, "busy");
            assert_eq!(body.error, "busy now");
        }
        other => panic!("unexpected route {other:?}"),
    }
    let dropped = TransportError::Io {
        kind: IoErrorKind::BrokenPipe,
        detail: "broken pipe".to_string(),
        message: "io: broken pipe".to_string(),
    };
    assert!(is_engine_unavailable(&dropped));
    assert_eq!(edit_route(&Err(dropped.clone()), true), EditRoute::PersistStored);
    match edit_route(&Err(dropped), false) {
        EditRoute::Reply(h) => {
            assert_eq!(h.status, 502);
            assert_eq!(h.body.unwrap().error, "io: broken pipe");
        }
        other => panic!("unexpected route {other:?}"),
    }
    let gone = TransportError::Io {
        kind: IoErrorKind::Other,
        detail: "engine connection unavailable (socket)".to_string(),
        message: "m".to_string(),
    };
    assert!(is_engine_unavailable(&gone));
    let timeout = TransportError::Io { kind: IoErrorKind::Other, detail: "timed out".to_string(), message: "m".to_string() };
    assert!(!is_engine_unavailable(&timeout));
    assert!(!is_engine_unavailable(&TransportError::Other { message: "decode".to_string() }));
}

#[test]
fn patch_route_reports_gateway_errors() {
    match patch_route(&Ok(EngineReply::Nack { code: EngineErrorCode::InvalidInput, reason: "bad".to_string() })) {
        EditRoute::Reply(h) => {
            assert_eq!(h.status, 502);
            let body = h.body.unwrap();
            assert_eq!(body.code, "invalid_input");
            assert_eq!(body.error, "engine rejected patch: bad");
        }
        other => panic!("unexpected route {other:?}"),
    }
    match patch_route(&Err(TransportError::Other { message: "eof".to_string() })) {
        EditRoute::Reply(h) => assert_eq!(h.body.unwrap().error, "engine error: eof"),
        other => panic!("unexpected route {other:?}"),
    }
}

#[test]
fn stored_and_live_edit_replies() {
    assert_eq!(stored_edit_reply(&Ok(true)).status, 204);
    assert_eq!(stored_edit_reply(&Ok(false)).status, 404);
    let failed = stored_edit_reply(&Err("disk full".to_string()));
    assert_eq!(failed.status, 500);
    assert_eq!(failed.body.unwrap().error, "failed to persist stream manifest: disk full");
    assert_eq!(live_edit_reply(&Ok(())).status, 204);
    assert_eq!(live_edit_reply(&Err("nope".to_string())).body.unwrap().error, "nope");
}

fn capture(backend: BackendKind, handle: BackendHandle, keys: &[&str]) -> CaptureConfig {
    CaptureConfig {
        backend,
        handle,
        device_keys: keys.iter().map(|k| k.to_string()).collect(),
        format_fourcc: "NV12".to_string(),
        controls: Vec::new(),
        enable_tdn_output: false,
        target_fps: None,
    }
}

#[test]
fn camera_id_prefers_stable_names() {
    let file = BackendHandle::File { paths: vec!["/media/a.mp4".to_string()], fps: 30, loop_forever: false };
    let anon = StreamIdentity { id: None, alias: None, hardware_id: None };
    assert_eq!(camera_id_for_manifest(&anon, &capture(BackendKind::File, file.clone(), &["media-file"])), "/media/a.mp4");
    let with_id = StreamIdentity { id: Some(1), alias: None, hardware_id: Some("hw".to_string()) };
    assert_eq!(
        camera_id_for_manifest(&with_id, &capture(BackendKind::File, file, &[])),
        "00000000-0000-0000-0000-000000000001"
    );
    let empty_file = BackendHandle::File { paths: Vec::new(), fps: 30, loop_forever: false };
    assert_eq!(camera_id_for_manifest(&anon, &capture(BackendKind::File, empty_file, &[])), "media-file-unknown");
    let cam = BackendHandle::Libcamera { id: "c".to_string() };
    assert_eq!(camera_id_for_manifest(&anon, &capture(BackendKind::Libcamera, cam.clone(), &["b", "a:1", "x/y"])), "x/y");
    assert_eq!(camera_id_for_manifest(&anon, &capture(BackendKind::Libcamera, cam.clone(), &["b", "a:1"])), "a:1");
    assert_eq!(camera_id_for_manifest(&anon, &capture(BackendKind::Libcamera, cam.clone(), &["beta", "alpha", "alp"])), "alp");
    let named = StreamIdentity { id: None, alias: Some("al".to_string()), hardware_id: None };
    assert_eq!(camera_id_for_manifest(&named, &capture(BackendKind::Libcamera, cam.clone(), &[])), "al");
    assert_eq!(camera_id_for_manifest(&anon, &capture(BackendKind::Libcamera, cam, &[])), "unknown");
}

#[test]
fn effective_layout_fills_a_square_grid() {
    let mut cfg = config(true, (1..=5).map(|i| binding(i, None)).collect(), Some(1), None);
    apply_effective_pipeline_layout(&mut cfg);
    let layout = cfg.pipeline_layout.expect("grid");
    assert_eq!((layout.rows, layout.columns), (3, 3));
    assert_eq!(layout.slots.len(), 5);
    assert_eq!(layout.slots[4], slot(1, 1, Some(5), None));
    let mut single = config(true, vec![binding(1, None)], Some(1), None);
    apply_effective_pipeline_layout(&mut single);
    assert!(single.pipeline_layout.is_none());
}

#[test]
fn preferred_output_reads_cell_then_active_then_binding() {
    let layout = PipelineLayout { rows: 1, columns: 2, slots: vec![slot(0, 1, Some(4), Some(" cell "))] };
    let mut cfg = config(true, vec![binding(4, Some("bound")), binding(5, Some(" five "))], Some(5), Some(layout));
    cfg.active_pipeline_output = Some("act".to_string());
    assert_eq!(preferred_pipeline_output(&cfg, 4).as_deref(), Some("cell"));
    assert_eq!(preferred_pipeline_output(&cfg, 5).as_deref(), Some("act"));
    cfg.active_pipeline_output = None;
    assert_eq!(preferred_pipeline_output(&cfg, 5).as_deref(), Some("five"));
    assert_eq!(preferred_pipeline_output(&cfg, 6), None);
}

#[test]
fn promotion_points_single_view_at_pipeline() {
    let layout = PipelineLayout { rows: 1, columns: 1, slots: vec![slot(0, 0, Some(RAW), None)] };
    let mut cfg = config(true, vec![binding(6, Some("seg"))], Some(RAW), Some(layout));
    promote_single_view_pipeline_selection(&mut cfg, 6, &None, &ids());
    assert_eq!(cfg.active_pipeline_id, Some(6));
    assert_eq!(cfg.active_pipeline_output.as_deref(), Some("seg"));
    assert_eq!(cfg.pipeline_layout.unwrap().slots[0], slot(0, 0, Some(6), Some("seg")));

    let layout = PipelineLayout { rows: 1, columns: 1, slots: vec![slot(0, 0, Some(7), None)] };
    let mut busy = config(true, vec![binding(6, None), binding(7, None)], Some(7), Some(layout));
    let before = busy.clone();
    promote_single_view_pipeline_selection(&mut busy, 6, &None, &ids());
    assert_eq!(busy, before);
}

#[test]
fn missing_output_recovery_clears_every_selection() {
    let layout = PipelineLayout { rows: 1, columns: 1, slots: vec![slot(0, 0, Some(4), Some("gone"))] };
    let mut cfg = config(true, vec![binding(4, Some("gone"))], Some(4), Some(layout));
    cfg.active_pipeline_output = Some("gone".to_string());
    let changed =
        recover_from_missing_selected_output(&mut cfg, EngineErrorCode::InvalidState, "Selected output `gone` NOT FOUND", &ids());
    assert!(changed);
    assert_eq!(cfg.active_pipeline_output, None);
    assert_eq!(cfg.pipelines[0].pipeline_output, None);
    assert_eq!(cfg.pipeline_layout.unwrap().slots[0].output_key, None);

    let mut other = config(true, vec![binding(4, Some("x"))], Some(4), None);
    assert!(!recover_from_missing_selected_output(&mut other, EngineErrorCode::Busy, "selected output not found", &ids()));
    assert_eq!(other.pipelines[0].pipeline_output.as_deref(), Some("x"));
}
