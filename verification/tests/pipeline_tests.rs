use helios_api::streams::manifest::{
    LayoutSlot, PipelineBinding, PipelineConfig, PipelineLayout, PipelineWire, ReservedPipelineIds, WireEndpoint,
};
use helios_api::streams::outputs::{canonicalize_raw_output_value, normalized_output_value};
use helios_api::streams::pipeline::{
    canonicalize_raw_output_aliases, find_origin_slot, find_shown_slot, keep_wires_without,
    normalize_pipeline_manifest, prune_dangling_pipeline_references, recover_single_view_slot_from_active,
    strip_reserved_pipeline_ids,
};

const RAW: u128 = 0x0000_0000_0000_4000_8000_0000_0000_0001;
const CAL: u128 = 0x0000_0000_0000_4000_8000_0000_0000_0002;
const A: u128 = 0xa;
const B: u128 = 0xb;
const GHOST: u128 = 0xdead;

fn ids() -> ReservedPipelineIds {
    ReservedPipelineIds { raw: RAW, calibration_mode: CAL }
}

fn binding(id: u128, output: Option<&str>) -> PipelineBinding {
    PipelineBinding { pipeline_id: id, pipeline_output: output.map(|o| o.to_string()), has_inline_graph: false }
}

fn slot(row: u8, column: u8, id: Option<u128>, key: Option<&str>) -> LayoutSlot {
    LayoutSlot { row, column, pipeline_id: id, output_key: key.map(|k| k.to_string()) }
}

fn wire(from: u128, key: Option<&str>, to: u128) -> PipelineWire {
    PipelineWire {
        from: WireEndpoint { pipeline_id: from, output_key: key.map(|k| k.to_string()), port: None },
        to: WireEndpoint { pipeline_id: to, output_key: None, port: Some("in".to_string()) },
    }
}

fn config() -> PipelineConfig {
    PipelineConfig {
        pipeline_enabled: true,
        pipelines: vec![binding(A, Some(" o1 ")), binding(B, None)],
        active_pipeline_id: None,
        active_pipeline_output: None,
        pipeline_layout: None,
        pipeline_wires: Vec::new(),
    }
}

#[test]
fn output_values_are_trimmed_and_raw_ones_canonical() {
    assert_eq!(normalized_output_value(&Some("  x ".to_string())), Some("x".to_string()));
    assert_eq!(normalized_output_value(&Some("   ".to_string())), None);
    assert_eq!(normalized_output_value(&None), None);
    assert_eq!(canonicalize_raw_output_value(&Some(" UnDistorted ".to_string())), Some("undistorted".to_string()));
    assert_eq!(canonicalize_raw_output_value(&Some("frame".to_string())), Some("raw".to_string()));
    assert_eq!(canonicalize_raw_output_value(&Some(" ".to_string())), None);
}

#[test]
fn disabled_pipelines_are_emptied() {
    let mut cfg = config();
    cfg.pipeline_enabled = false;
    cfg.active_pipeline_id = Some(A);
    cfg.active_pipeline_output = Some("o".to_string());
    cfg.pipeline_layout = Some(PipelineLayout { rows: 1, columns: 1, slots: vec![slot(0, 0, Some(A), None)] });
    cfg.pipeline_wires = vec![wire(A, None, B)];
    normalize_pipeline_manifest(&mut cfg, &ids());
    assert!(!cfg.pipeline_enabled);
    assert!(cfg.pipelines.is_empty());
    assert_eq!(cfg.active_pipeline_id, None);
    assert_eq!(cfg.active_pipeline_output, None);
    assert!(cfg.pipeline_layout.is_none());
    assert!(cfg.pipeline_wires.is_empty());
}

#[test]
fn stale_single_view_slot_is_retargeted_to_the_active_pipeline() {
    let mut cfg = config();
    cfg.pipelines[1].has_inline_graph = true;
    cfg.pipeline_layout = Some(PipelineLayout { rows: 1, columns: 1, slots: vec![slot(0, 0, Some(GHOST), Some("x"))] });
    cfg.pipeline_wires = vec![wire(A, None, GHOST), wire(A, None, B)];
    normalize_pipeline_manifest(&mut cfg, &ids());
    assert!(cfg.pipeline_enabled);
    assert_eq!(cfg.pipelines.len(), 2);
    assert_eq!(cfg.pipelines[0].pipeline_output.as_deref(), Some(" o1 "));
    assert!(cfg.pipelines.iter().all(|b| !b.has_inline_graph));
    assert_eq!(cfg.active_pipeline_id, Some(A));
    assert_eq!(cfg.active_pipeline_output, None);
    let layout = cfg.pipeline_layout.unwrap();
    assert_eq!(layout.slots, vec![slot(0, 0, Some(A), None)]);
    assert_eq!(cfg.pipeline_wires, vec![wire(A, None, B)]);
}

#[test]
fn single_view_slot_drives_the_active_selection() {
    let mut cfg = config();
    cfg.active_pipeline_id = Some(A);
    cfg.active_pipeline_output = Some("o1".to_string());
    cfg.pipeline_layout = Some(PipelineLayout { rows: 1, columns: 1, slots: vec![slot(0, 0, Some(B), Some(" b-out "))] });
    normalize_pipeline_manifest(&mut cfg, &ids());
    assert_eq!(cfg.active_pipeline_id, Some(B));
    assert_eq!(cfg.active_pipeline_output.as_deref(), Some("b-out"));
}

#[test]
fn raw_selection_takes_canonical_outputs() {
    let mut cfg = config();
    cfg.active_pipeline_id = Some(RAW);
    cfg.active_pipeline_output = Some(" Undistorted ".to_string());
    cfg.pipeline_layout = Some(PipelineLayout { rows: 1, columns: 1, slots: vec![slot(0, 0, Some(RAW), Some("frame"))] });
    cfg.pipeline_wires = vec![wire(RAW, Some("UNDISTORTED"), A)];
    normalize_pipeline_manifest(&mut cfg, &ids());
    assert_eq!(cfg.active_pipeline_id, Some(RAW));
    assert_eq!(cfg.active_pipeline_output.as_deref(), Some("raw"));
    assert_eq!(cfg.pipeline_layout.unwrap().slots[0].output_key.as_deref(), Some("raw"));
    assert_eq!(cfg.pipeline_wires[0].from.output_key.as_deref(), Some("undistorted"));
}

#[test]
fn calibration_mode_alone_switches_pipelines_off() {
    let mut cfg = config();
    cfg.pipelines = vec![binding(CAL, None)];
    cfg.active_pipeline_id = Some(CAL);
    cfg.active_pipeline_output = Some("x".to_string());
    normalize_pipeline_manifest(&mut cfg, &ids());
    assert!(!cfg.pipeline_enabled);
    assert!(cfg.pipelines.is_empty());
    assert_eq!(cfg.active_pipeline_id, None);
}

#[test]
fn stripping_calibration_mode_keeps_other_state() {
    let mut cfg = config();
    cfg.pipelines.push(binding(CAL, None));
    cfg.active_pipeline_id = Some(CAL);
    cfg.active_pipeline_output = Some("cal".to_string());
    cfg.pipeline_layout = Some(PipelineLayout {
        rows: 1,
        columns: 2,
        slots: vec![slot(0, 0, Some(CAL), Some("cal")), slot(0, 1, Some(A), None)],
    });
    cfg.pipeline_wires = vec![wire(CAL, None, A), wire(A, None, B)];
    strip_reserved_pipeline_ids(&mut cfg, &ids());
    assert!(cfg.pipeline_enabled);
    assert_eq!(cfg.pipelines.iter().map(|b| b.pipeline_id).collect::<Vec<_>>(), vec![A, B]);
    assert_eq!(cfg.active_pipeline_id, None);
    assert_eq!(cfg.active_pipeline_output, None);
    let layout = cfg.pipeline_layout.unwrap();
    assert_eq!(layout.slots[0].pipeline_id, None);
    assert_eq!(layout.slots[0].output_key, None);
    assert_eq!(layout.slots[1].pipeline_id, Some(A));
    assert_eq!(cfg.pipeline_wires, vec![wire(A, None, B)]);
}

#[test]
fn dangling_references_are_pruned() {
    let mut cfg = config();
    cfg.active_pipeline_id = Some(GHOST);
    cfg.active_pipeline_output = Some("x".to_string());
    cfg.pipeline_layout = Some(PipelineLayout {
        rows: 1,
        columns: 3,
        slots: vec![slot(0, 0, Some(RAW), Some("raw")), slot(0, 1, Some(GHOST), Some("y")), slot(0, 2, None, Some("z"))],
    });
    cfg.pipeline_wires = vec![wire(GHOST, None, A), wire(RAW, None, A)];
    assert!(prune_dangling_pipeline_references(&mut cfg, RAW));
    assert_eq!(cfg.active_pipeline_id, None);
    assert_eq!(cfg.active_pipeline_output, None);
    let layout = cfg.pipeline_layout.as_ref().unwrap();
    assert_eq!(layout.slots[1], slot(0, 1, None, None));
    assert_eq!(layout.slots[2], slot(0, 2, None, Some("z")));
    assert_eq!(cfg.pipeline_wires, vec![wire(RAW, None, A)]);
    assert!(!prune_dangling_pipeline_references(&mut cfg, RAW));
}

#[test]
fn empty_single_view_grid_recovers_the_active_or_first_pipeline() {
    let mut cfg = config();
    cfg.active_pipeline_output = Some("out".to_string());
    cfg.pipeline_layout = Some(PipelineLayout { rows: 1, columns: 1, slots: vec![slot(0, 0, None, Some("  "))] });
    recover_single_view_slot_from_active(&mut cfg);
    assert_eq!(cfg.pipeline_layout.as_ref().unwrap().slots, vec![slot(0, 0, Some(A), Some("out"))]);

    let mut pushed = config();
    pushed.active_pipeline_id = Some(B);
    pushed.pipeline_layout = Some(PipelineLayout { rows: 1, columns: 1, slots: vec![slot(1, 1, None, None)] });
    recover_single_view_slot_from_active(&mut pushed);
    assert_eq!(
        pushed.pipeline_layout.unwrap().slots,
        vec![slot(1, 1, None, None), slot(0, 0, Some(B), None)]
    );

    let mut grid = config();
    grid.pipeline_layout = Some(PipelineLayout { rows: 2, columns: 1, slots: Vec::new() });
    recover_single_view_slot_from_active(&mut grid);
    assert!(grid.pipeline_layout.unwrap().slots.is_empty());
}

#[test]
fn raw_aliases_are_canonical_everywhere() {
    let mut cfg = config();
    cfg.pipelines.push(binding(RAW, Some("overlay")));
    cfg.active_pipeline_id = Some(A);
    cfg.active_pipeline_output = Some(" keep ".to_string());
    cfg.pipeline_layout = Some(PipelineLayout { rows: 1, columns: 1, slots: vec![slot(0, 0, Some(RAW), None)] });
    canonicalize_raw_output_aliases(&mut cfg, RAW);
    assert_eq!(cfg.pipelines[2].pipeline_output.as_deref(), Some("raw"));
    assert_eq!(cfg.pipelines[0].pipeline_output.as_deref(), Some(" o1 "));
    assert_eq!(cfg.active_pipeline_output.as_deref(), Some(" keep "));
    assert_eq!(cfg.pipeline_layout.unwrap().slots[0].output_key, None);
}

#[test]
fn slot_searches_find_origin_and_first_shown() {
    let slots = vec![slot(0, 1, None, None), slot(0, 0, None, None), slot(1, 0, Some(A), None)];
    assert_eq!(find_origin_slot(&slots), 1);
    assert_eq!(find_shown_slot(&slots), 2);
    let none = vec![slot(1, 1, None, None)];
    assert_eq!(find_origin_slot(&none), 1);
    assert_eq!(find_shown_slot(&none), 1);
}

#[test]
fn wires_touching_a_pipeline_are_dropped() {
    let wires = vec![wire(A, None, B), wire(B, None, A), wire(RAW, None, B)];
    assert_eq!(keep_wires_without(&wires, A), vec![wire(RAW, None, B)]);
    assert_eq!(keep_wires_without(&wires, GHOST), wires);
}

#[test]
fn normalizing_twice_changes_nothing_more() {
    let mut cfgs = Vec::new();
    let mut messy = config();
    messy.pipelines.push(binding(CAL, None));
    messy.pipelines.push(binding(RAW, Some(" Frame ")));
    messy.active_pipeline_id = Some(RAW);
    messy.active_pipeline_output = Some("  ".to_string());
    messy.pipeline_layout = Some(PipelineLayout {
        rows: 1,
        columns: 1,
        slots: vec![slot(0, 1, Some(GHOST), Some("x")), slot(0, 0, None, Some(" det "))],
    });
    messy.pipeline_wires = vec![wire(RAW, Some("undistorted "), A), wire(CAL, None, B), wire(A, None, GHOST)];
    cfgs.push(messy);
    let mut stale = config();
    stale.pipeline_layout = Some(PipelineLayout { rows: 1, columns: 1, slots: vec![slot(0, 0, Some(GHOST), None)] });
    cfgs.push(stale);
    let mut only_cal = config();
    only_cal.pipelines = vec![binding(CAL, None)];
    cfgs.push(only_cal);
    for cfg in cfgs {
        let mut once = cfg.clone();
        normalize_pipeline_manifest(&mut once, &ids());
        let mut twice = once.clone();
        normalize_pipeline_manifest(&mut twice, &ids());
        assert_eq!(twice, once);
    }
}
