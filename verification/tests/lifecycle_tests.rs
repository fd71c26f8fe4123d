use helios_api::streams::controls::{
    check_control_value, controls_to_apply, ControlKind, ControlLimits, RangeVerdict, inherited_start_on_boot, inherited_target_fps, merge_capture_controls,
    replay_frame_range_adjustment, uint_like_value, ControlInfo, LiveControl,
};
use helios_api::streams::lifecycle::{
    clone_slots, inherit_pipeline_state, manifest_targets_ov9782, preserve_single_view_output,
};
use helios_api::streams::manifest::{LayoutSlot, PipelineBinding, PipelineConfig, PipelineLayout};
use helios_api::streams::validation::{
    BackendHandle, BackendKind, CaptureConfig, ControlAssignment, ControlValue, StreamIdentity,
};

const A: u128 = 0xa;
const B: u128 = 0xb;

fn set(id: u32, value: ControlValue) -> ControlAssignment {
    ControlAssignment { id, value }
}

fn info(id: u32, name: &str, default: ControlValue) -> ControlInfo {
    ControlInfo { id, name: name.to_string(), default }
}

fn empty_config(enabled: bool) -> PipelineConfig {
    PipelineConfig {
        pipeline_enabled: enabled,
        pipelines: Vec::new(),
        active_pipeline_id: None,
        active_pipeline_output: None,
        pipeline_layout: None,
        pipeline_wires: Vec::new(),
    }
}

fn single_view(id: u128, output: Option<&str>) -> PipelineLayout {
    PipelineLayout {
        rows: 1,
        columns: 1,
        slots: vec![LayoutSlot { row: 0, column: 0, pipeline_id: Some(id), output_key: output.map(|o| o.to_string()) }],
    }
}

#[test]
fn live_controls_seed_a_non_libcamera_update() {
    let live = vec![
        LiveControl { id: 5, read_only: false, value: Some(ControlValue::Int(1)), default: ControlValue::Int(0) },
        LiveControl { id: 3, read_only: true, value: Some(ControlValue::Int(9)), default: ControlValue::Int(0) },
        LiveControl { id: 2, read_only: false, value: None, default: ControlValue::Uint(7) },
    ];
    let base = vec![set(1, ControlValue::Int(1))];
    let requested = vec![set(2, ControlValue::Bool(true)), set(9, ControlValue::Int(4))];
    assert_eq!(
        merge_capture_controls(false, false, Some(&live), &base, &requested),
        Some(vec![set(2, ControlValue::Bool(true)), set(5, ControlValue::Int(1)), set(9, ControlValue::Int(4))])
    );
    // Without a running stream the stored controls seed it.
    assert_eq!(
        merge_capture_controls(false, false, None, &base, &requested),
        Some(vec![set(1, ControlValue::Int(1)), set(2, ControlValue::Bool(true)), set(9, ControlValue::Int(4))])
    );
}

#[test]
fn libcamera_keeps_stored_controls_only_without_a_request() {
    let base = vec![set(30, ControlValue::Int(1)), set(4, ControlValue::Int(2)), set(4, ControlValue::Int(3))];
    assert_eq!(merge_capture_controls(true, true, None, &base, &Vec::new()), Some(vec![set(4, ControlValue::Int(3))]));
    assert_eq!(
        merge_capture_controls(true, false, None, &base, &Vec::new()),
        Some(vec![set(4, ControlValue::Int(3)), set(30, ControlValue::Int(1))])
    );
    let requested = vec![set(8, ControlValue::Uint(1))];
    assert_eq!(merge_capture_controls(true, false, None, &base, &requested), Some(vec![set(8, ControlValue::Uint(1))]));
    assert_eq!(merge_capture_controls(false, false, None, &Vec::new(), &Vec::new()), None);
}

#[test]
fn inherited_frame_rate_and_autostart() {
    assert_eq!(inherited_target_fps(false, None, Some(15), true), Some(15));
    assert_eq!(inherited_target_fps(false, None, None, true), None);
    assert_eq!(inherited_target_fps(true, None, Some(45), true), Some(45));
    assert_eq!(inherited_target_fps(true, None, Some(90), true), Some(30));
    assert_eq!(inherited_target_fps(true, None, Some(0), true), Some(30));
    assert_eq!(inherited_target_fps(true, None, Some(45), false), Some(30));
    assert_eq!(inherited_target_fps(true, Some(10), Some(45), true), Some(10));
    assert!(inherited_start_on_boot(false, true));
    assert!(inherited_start_on_boot(true, false));
    assert!(!inherited_start_on_boot(false, false));
}

#[test]
fn frame_range_controls_keep_start_before_stop() {
    let infos = vec![
        info(1, "file.start_frame", ControlValue::Uint(0)),
        info(2, "file.stop_frame", ControlValue::Uint(100)),
        info(3, "gain", ControlValue::Int(0)),
        info(4, " cam.start_frame ", ControlValue::Uint(0)),
        info(5, "cam.stop_frame", ControlValue::Int(-1)),
    ];
    let none: Vec<ControlAssignment> = Vec::new();
    assert_eq!(replay_frame_range_adjustment(&infos, &none, 1, ControlValue::Uint(150)), Some((2, ControlValue::Uint(150))));
    assert_eq!(replay_frame_range_adjustment(&infos, &none, 1, ControlValue::Int(50)), None);
    assert_eq!(replay_frame_range_adjustment(&infos, &none, 2, ControlValue::Int(-1)), None);
    let assigned = vec![set(1, ControlValue::Uint(20))];
    assert_eq!(replay_frame_range_adjustment(&infos, &assigned, 2, ControlValue::Uint(10)), Some((1, ControlValue::Uint(10))));
    assert_eq!(replay_frame_range_adjustment(&infos, &assigned, 2, ControlValue::Uint(30)), None);
    assert_eq!(replay_frame_range_adjustment(&infos, &none, 3, ControlValue::Uint(1)), None);
    assert_eq!(replay_frame_range_adjustment(&infos, &none, 9, ControlValue::Uint(1)), None);
    // A sibling whose value is no count is left alone.
    assert_eq!(replay_frame_range_adjustment(&infos, &none, 4, ControlValue::Uint(5)), None);
    let set_stop = vec![set(5, ControlValue::Uint(2))];
    assert_eq!(replay_frame_range_adjustment(&infos, &set_stop, 4, ControlValue::Uint(5)), Some((5, ControlValue::Uint(5))));
}

#[test]
fn counts_and_application_order() {
    assert_eq!(uint_like_value(ControlValue::Uint(3)), Some(3));
    assert_eq!(uint_like_value(ControlValue::Int(4)), Some(4));
    assert_eq!(uint_like_value(ControlValue::Int(-4)), None);
    assert_eq!(uint_like_value(ControlValue::Bool(true)), None);
    assert_eq!(
        controls_to_apply(Some((2, ControlValue::Uint(9))), 1, ControlValue::Uint(9)),
        vec![(2, ControlValue::Uint(9)), (1, ControlValue::Uint(9))]
    );
    assert_eq!(controls_to_apply(None, 1, ControlValue::Unset), vec![(1, ControlValue::Unset)]);
}

#[test]
fn ov9782_is_recognised_on_libcamera_only() {
    let ident = StreamIdentity { id: None, alias: None, hardware_id: None };
    let mut c = CaptureConfig {
        backend: BackendKind::Libcamera,
        handle: BackendHandle::Libcamera { id: "/base/soc/i2c0mux/imx219@10".to_string() },
        device_keys: vec!["cam0".to_string()],
        format_fourcc: "NV12".to_string(),
        controls: Vec::new(),
        enable_tdn_output: false,
        target_fps: None,
    };
    assert!(!manifest_targets_ov9782(&ident, &c));
    let named = StreamIdentity { id: None, alias: Some("Front OV9782".to_string()), hardware_id: None };
    assert!(manifest_targets_ov9782(&named, &c));
    c.device_keys.push("/base/soc/ov9782@60".to_string());
    assert!(manifest_targets_ov9782(&ident, &c));
    c.backend = BackendKind::V4l2;
    assert!(!manifest_targets_ov9782(&named, &c));
}

#[test]
fn pipeline_state_is_inherited_only_when_none_is_given() {
    let mut base = empty_config(true);
    base.pipelines = vec![PipelineBinding { pipeline_id: A, pipeline_output: None, has_inline_graph: false }];
    base.active_pipeline_id = Some(A);
    base.pipeline_layout = Some(single_view(A, Some("det")));

    let mut fresh = empty_config(true);
    inherit_pipeline_state(&mut fresh, &base, false);
    assert_eq!(fresh, base);

    let mut persisted = empty_config(true);
    inherit_pipeline_state(&mut persisted, &base, true);
    assert_eq!(persisted, empty_config(true));

    let mut own = empty_config(true);
    own.active_pipeline_id = Some(B);
    let before = own.clone();
    inherit_pipeline_state(&mut own, &base, false);
    assert_eq!(own, before);

    let mut off = base.clone();
    off.pipeline_enabled = false;
    inherit_pipeline_state(&mut off, &base, false);
    assert_eq!(off, empty_config(false));
}

#[test]
fn single_view_keeps_the_output_it_showed() {
    let mut base = empty_config(true);
    base.pipeline_layout = Some(single_view(A, Some(" det ")));
    let mut cfg = empty_config(true);
    cfg.pipeline_layout = Some(single_view(A, None));
    preserve_single_view_output(&mut cfg, &base);
    assert_eq!(cfg.pipeline_layout.as_ref().unwrap().slots[0].output_key.as_deref(), Some("det"));

    let mut active_base = empty_config(true);
    active_base.active_pipeline_id = Some(B);
    active_base.active_pipeline_output = Some("overlay".to_string());
    active_base.pipeline_layout = Some(single_view(A, None));
    let mut moved = empty_config(true);
    moved.pipeline_layout = Some(single_view(B, None));
    preserve_single_view_output(&mut moved, &active_base);
    assert_eq!(moved.pipeline_layout.as_ref().unwrap().slots[0].output_key.as_deref(), Some("overlay"));

    let mut chosen = empty_config(true);
    chosen.pipeline_layout = Some(single_view(A, Some("mine")));
    let before = chosen.clone();
    preserve_single_view_output(&mut chosen, &base);
    assert_eq!(chosen, before);
}

#[test]
fn slots_clone_exactly() {
    let slots = single_view(A, Some("x")).slots;
    assert_eq!(clone_slots(&slots), slots);
    assert!(clone_slots(&Vec::new()).is_empty());
}

fn limits(kind: ControlKind, menu_len: Option<usize>) -> ControlLimits {
    ControlLimits { read_only: false, kind, menu_len }
}

#[test]
fn control_values_are_checked_against_the_descriptor() {
    let within = RangeVerdict::Within;
    let ro = ControlLimits { read_only: true, kind: ControlKind::Int, menu_len: None };
    assert_eq!(check_control_value(&ro, ControlValue::Unset, &within), Err("control is read-only".to_string()));
    assert_eq!(check_control_value(&limits(ControlKind::Int, None), ControlValue::Unset, &RangeVerdict::NotFinite), Ok(()));
    assert_eq!(
        check_control_value(&limits(ControlKind::Int, None), ControlValue::Uint(1), &within),
        Err("value type mismatch for control kind".to_string())
    );
    assert_eq!(
        check_control_value(&limits(ControlKind::Other, None), ControlValue::Bool(true), &within),
        Err("value type mismatch for control kind".to_string())
    );
    assert_eq!(
        check_control_value(&limits(ControlKind::Float, None), ControlValue::Float { bits: f64::NAN.to_bits() }, &RangeVerdict::NotFinite),
        Err("value is not finite".to_string())
    );
    let out = RangeVerdict::OutOfRange { min: "0".to_string(), max: "2.5".to_string() };
    assert_eq!(
        check_control_value(&limits(ControlKind::Float, None), ControlValue::Float { bits: 3.0f64.to_bits() }, &out),
        Err("value out of range (min=0, max=2.5)".to_string())
    );
    assert_eq!(check_control_value(&limits(ControlKind::Bool, None), ControlValue::Bool(false), &within), Ok(()));
}

#[test]
fn menu_values_must_pick_an_entry() {
    let within = RangeVerdict::Within;
    assert_eq!(check_control_value(&limits(ControlKind::Menu, Some(3)), ControlValue::Uint(2), &within), Ok(()));
    assert_eq!(
        check_control_value(&limits(ControlKind::Menu, Some(3)), ControlValue::Uint(3), &within),
        Err("menu index out of range (0..2)".to_string())
    );
    assert_eq!(
        check_control_value(&limits(ControlKind::IntMenu, Some(2)), ControlValue::Int(-1), &within),
        Err("menu index must be non-negative".to_string())
    );
    assert_eq!(
        check_control_value(&limits(ControlKind::IntMenu, Some(0)), ControlValue::Int(0), &within),
        Err("menu index out of range (0..0)".to_string())
    );
    assert_eq!(check_control_value(&limits(ControlKind::Menu, None), ControlValue::Uint(99), &within), Ok(()));
    assert_eq!(
        check_control_value(&limits(ControlKind::Menu, Some(3)), ControlValue::Int(1), &within),
        Err("value type mismatch for control kind".to_string())
    );
}
