//! Creating and updating a stream: what a new manifest takes over from the
//! stream it replaces (pipeline state, the visible output, capture
//! controls, frame rate, autostart), the defaults of an OV9782 sensor, the
//! grid for several pipelines, and the key a stream is persisted under.
use vstd::prelude::*;
use crate::streams::manifest::{
    binding_views, opt_view, slot_views, BindingView, ConfigView, LayoutSlot, LayoutView,
    PipelineConfig, PipelineLayout, SlotView,
};
use crate::streams::outputs::{clone_opt, norm_out, normalized_output_value};
use crate::streams::validation::{
    BackendHandle, BackendKind, CaptureConfig, ControlAssignment, ControlValue, StreamIdentity,
    };
use crate::text::{contains, contains_str, lower_seq, to_lower};

verus! {

// ---------------------------------------------------------------------------
// OV9782 defaults.

pub const LIBCAMERA_AE_EXPOSURE_MODE: u32 = 5;
pub const LIBCAMERA_SHARPNESS: u32 = 24;
pub const LIBCAMERA_NOISE_REDUCTION_MODE: u32 = 10002;
pub const LIBCAMERA_FRAME_DURATION_LIMITS: u32 = 30;
pub const DEFAULT_LIBCAMERA_TARGET_FPS: u32 = 30;
pub const OV9782_DEFAULT_LIBCAMERA_TARGET_FPS: u32 = 60;
pub const MAX_INHERITED_LIBCAMERA_TARGET_FPS: u32 = 60;
pub const OV9782_AE_EXPOSURE_SHORT: i64 = 1;
pub const OV9782_NOISE_REDUCTION_OFF: i64 = 0;
/// 1.25 as the bits of an `f64`.
pub const OV9782_DEFAULT_SHARPNESS_BITS: u64 = 0x3FF4_0000_0000_0000;

pub open spec fn mentions_ov9782(raw: Seq<char>) -> bool {
    contains(lower_seq(raw), "ov9782"@)
}

fn token_mentions_ov9782(raw: &str) -> (r: bool)
    ensures
        r == mentions_ov9782(raw@),
{
    let lowered = to_lower(raw);
    contains_str(lowered.as_str(), "ov9782")
}

/// A libcamera capture names the OV9782 sensor in a device key, its
/// handle, its alias or its hardware id.
pub open spec fn targets_ov9782(ident: StreamIdentity, c: CaptureConfig) -> bool {
    c.backend == BackendKind::Libcamera && ((exists|i: int|
        0 <= i < c.device_keys@.len() && mentions_ov9782(#[trigger] c.device_keys@[i]@)) || (c.handle matches BackendHandle::Libcamera { id } && mentions_ov9782(id@))
        || (ident.alias matches Some(a) && mentions_ov9782(a@)) || (ident.hardware_id matches Some(h)
        && mentions_ov9782(h@)))
}

pub fn manifest_targets_ov9782(ident: &StreamIdentity, c: &CaptureConfig) -> (r: bool)
    ensures
        r == targets_ov9782(*ident, *c),
{
    if c.backend != BackendKind::Libcamera {
        return false;
    }
    let mut i: usize = 0;
    while i < c.device_keys.len()
        invariant
            c.backend == BackendKind::Libcamera,
            i <= c.device_keys@.len(),
            forall|k: int| 0 <= k < i ==> !mentions_ov9782(#[trigger] c.device_keys@[k]@),
        decreases c.device_keys@.len() - i,
    {
        if token_mentions_ov9782(c.device_keys[i].as_str()) {
            assert(mentions_ov9782(c.device_keys@[i as int]@));
            return true;
        }
        i = i + 1;
    }
    match &c.handle {
        BackendHandle::Libcamera { id } => if token_mentions_ov9782(id.as_str()) {
            return true;
        },
        _ => {},
    }
    match &ident.alias {
        Some(a) => if token_mentions_ov9782(a.as_str()) {
            return true;
        },
        None => {},
    }
    match &ident.hardware_id {
        Some(h) => if token_mentions_ov9782(h.as_str()) {
            return true;
        },
        None => {},
    }
    false
}

pub open spec fn has_control(cs: Seq<ControlAssignment>, id: u32) -> bool {
    exists|i: int| 0 <= i < cs.len() && (#[trigger] cs[i]).id == id
}

pub open spec fn with_control_if_missing(cs: Seq<ControlAssignment>, id: u32, v: ControlValue) -> Seq<ControlAssignment> {
    if has_control(cs, id) {
        cs
    } else {
        cs.push(ControlAssignment { id, value: v })
    }
}

fn insert_control_if_missing(cs: &mut Vec<ControlAssignment>, id: u32, v: ControlValue)
    ensures
        final(cs)@ == with_control_if_missing(old(cs)@, id, v),
{
    let mut i: usize = 0;
    while i < cs.len()
        invariant
            i <= cs@.len(),
            cs@ == old(cs)@,
            forall|k: int| 0 <= k < i ==> (#[trigger] cs@[k]).id != id,
        decreases cs@.len() - i,
    {
        if cs[i].id == id {
            return;
        }
        i = i + 1;
    }
    cs.push(ControlAssignment { id, value: v });
}

/// The controls an OV9782 stream starts with unless it sets them.
pub open spec fn ov9782_controls(cs: Seq<ControlAssignment>) -> Seq<ControlAssignment> {
    with_control_if_missing(
        with_control_if_missing(
            with_control_if_missing(cs, LIBCAMERA_AE_EXPOSURE_MODE, ControlValue::Int(OV9782_AE_EXPOSURE_SHORT)),
            LIBCAMERA_NOISE_REDUCTION_MODE,
            ControlValue::Int(OV9782_NOISE_REDUCTION_OFF),
        ),
        LIBCAMERA_SHARPNESS,
        ControlValue::Float { bits: OV9782_DEFAULT_SHARPNESS_BITS },
    )
}

/// A new OV9782 stream runs at 60 fps unless told otherwise, with short
/// exposure, noise reduction off and sharpness 1.25 unless set, and
/// without the temporal-denoise output. Other streams are left alone.
pub fn apply_new_ov9782_defaults(ident: &StreamIdentity, c: &mut CaptureConfig)
    ensures
        targets_ov9782(*ident, *old(c)) ==> {
            &&& final(c).target_fps == (if old(c).target_fps is None {
                Some(OV9782_DEFAULT_LIBCAMERA_TARGET_FPS)
            } else {
                old(c).target_fps
            })
            &&& final(c).controls@ == ov9782_controls(old(c).controls@)
            &&& !final(c).enable_tdn_output
            &&& final(c).backend == old(c).backend
            &&& final(c).handle == old(c).handle
            &&& final(c).device_keys == old(c).device_keys
            &&& final(c).format_fourcc == old(c).format_fourcc
        },
        !targets_ov9782(*ident, *old(c)) ==> *final(c) == *old(c),
{
    if !manifest_targets_ov9782(ident, c) {
        return;
    }
    if c.target_fps.is_none() {
        c.target_fps = Some(OV9782_DEFAULT_LIBCAMERA_TARGET_FPS);
    }
    insert_control_if_missing(&mut c.controls, LIBCAMERA_AE_EXPOSURE_MODE, ControlValue::Int(OV9782_AE_EXPOSURE_SHORT));
    insert_control_if_missing(&mut c.controls, LIBCAMERA_NOISE_REDUCTION_MODE, ControlValue::Int(OV9782_NOISE_REDUCTION_OFF));
    insert_control_if_missing(&mut c.controls, LIBCAMERA_SHARPNESS, ControlValue::Float { bits: OV9782_DEFAULT_SHARPNESS_BITS });
    c.enable_tdn_output = false;
}

/// Sets a control in a manifest (an unset value removes it); a change of
/// noise reduction leaves the temporal-denoise output to the engine.
pub open spec fn controls_without(cs: Seq<ControlAssignment>, id: u32) -> Seq<ControlAssignment>
    decreases cs.len(),
{
    if cs.len() == 0 {
        Seq::empty()
    } else if cs.last().id == id {
        controls_without(cs.drop_last(), id)
    } else {
        controls_without(cs.drop_last(), id).push(cs.last())
    }
}

pub fn apply_control_to_manifest(c: &mut CaptureConfig, control_id: u32, value: ControlValue)
    ensures
        final(c).controls@ == (if value == ControlValue::Unset {
            controls_without(old(c).controls@, control_id)
        } else {
            controls_without(old(c).controls@, control_id).push(ControlAssignment { id: control_id, value })
        }),
        final(c).enable_tdn_output == (if control_id == LIBCAMERA_NOISE_REDUCTION_MODE {
            false
        } else {
            old(c).enable_tdn_output
        }),
        final(c).backend == old(c).backend,
        final(c).handle == old(c).handle,
        final(c).target_fps == old(c).target_fps,
{
    let mut kept: Vec<ControlAssignment> = Vec::new();
    let mut i: usize = 0;
    while i < c.controls.len()
        invariant
            i <= c.controls@.len(),
            c.controls@ == old(c).controls@,
            kept@ == controls_without(c.controls@.subrange(0, i as int), control_id),
        decreases c.controls@.len() - i,
    {
        assert(c.controls@.subrange(0, i + 1).drop_last() =~= c.controls@.subrange(0, i as int));
        if c.controls[i].id != control_id {
            kept.push(c.controls[i]);
        }
        i = i + 1;
    }
    assert(c.controls@.subrange(0, c.controls@.len() as int) =~= c.controls@);
    match value {
        ControlValue::Unset => {},
        _ => kept.push(ControlAssignment { id: control_id, value }),
    }
    c.controls = kept;
    if control_id == LIBCAMERA_NOISE_REDUCTION_MODE {
        c.enable_tdn_output = false;
    }
}

// ---------------------------------------------------------------------------
// What an update takes over from the stream it replaces.

/// The request carries no pipeline state at all.
pub open spec fn no_pipeline_state(c: ConfigView) -> bool {
    c.bindings.len() == 0 && c.active_id is None && c.active_output is None && c.layout is None
        && c.wires.len() == 0
}

/// Disabled pipelines clear all pipeline state; a request without any takes
/// the replaced stream's, unless that stream's manifest only came from
/// storage (a running stream's state is taken, a stored one is not).
pub open spec fn inherited_pipeline(c: ConfigView, base: ConfigView, base_from_persist: bool) -> ConfigView {
    if !c.enabled {
        ConfigView {
            enabled: false,
            bindings: Seq::empty(),
            active_id: None,
            active_output: None,
            layout: None,
            wires: Seq::empty(),
        }
    } else if no_pipeline_state(c) && !base_from_persist {
        ConfigView {
            enabled: c.enabled,
            bindings: base.bindings,
            active_id: base.active_id,
            active_output: base.active_output,
            layout: base.layout,
            wires: base.wires,
        }
    } else {
        c
    }
}

fn clone_bindings(v: &Vec<crate::streams::manifest::PipelineBinding>) -> (r: Vec<crate::streams::manifest::PipelineBinding>)
    ensures
        r@ == v@,
{
    let mut out: Vec<crate::streams::manifest::PipelineBinding> = Vec::new();
    let mut i: usize = 0;
    while i < v.len()
        invariant
            i <= v@.len(),
            out@ == v@.subrange(0, i as int),
        decreases v@.len() - i,
    {
        let b = &v[i];
        out.push(crate::streams::manifest::PipelineBinding {
            pipeline_id: b.pipeline_id,
            pipeline_output: clone_opt(&b.pipeline_output),
            has_inline_graph: b.has_inline_graph,
        });
        assert(out@ =~= v@.subrange(0, i + 1));
        i = i + 1;
    }
    assert(v@.subrange(0, v@.len() as int) =~= v@);
    out
}

fn clone_wires(v: &Vec<crate::streams::manifest::PipelineWire>) -> (r: Vec<crate::streams::manifest::PipelineWire>)
    ensures
        r@ == v@,
{
    let mut out: Vec<crate::streams::manifest::PipelineWire> = Vec::new();
    let mut i: usize = 0;
    while i < v.len()
        invariant
            i <= v@.len(),
            out@ == v@.subrange(0, i as int),
        decreases v@.len() - i,
    {
        let w = &v[i];
        let from = crate::streams::manifest::WireEndpoint {
            pipeline_id: w.from.pipeline_id,
            output_key: clone_opt(&w.from.output_key),
            port: clone_opt(&w.from.port),
        };
        let to = crate::streams::manifest::WireEndpoint {
            pipeline_id: w.to.pipeline_id,
            output_key: clone_opt(&w.to.output_key),
            port: clone_opt(&w.to.port),
        };
        out.push(crate::streams::manifest::PipelineWire { from, to });
        assert(out@ =~= v@.subrange(0, i + 1));
        i = i + 1;
    }
    assert(v@.subrange(0, v@.len() as int) =~= v@);
    out
}

pub fn clone_slots(v: &Vec<LayoutSlot>) -> (r: Vec<LayoutSlot>)
    ensures
        r@ == v@,
{
    let mut out: Vec<LayoutSlot> = Vec::new();
    let mut i: usize = 0;
    while i < v.len()
        invariant
            i <= v@.len(),
            out@ == v@.subrange(0, i as int),
        decreases v@.len() - i,
    {
        let s = &v[i];
        out.push(LayoutSlot { row: s.row, column: s.column, pipeline_id: s.pipeline_id, output_key: clone_opt(&s.output_key) });
        assert(out@ =~= v@.subrange(0, i + 1));
        i = i + 1;
    }
    assert(v@.subrange(0, v@.len() as int) =~= v@);
    out
}

fn clone_layout(l: &Option<PipelineLayout>) -> (r: Option<PipelineLayout>)
    ensures
        crate::streams::manifest::layout_view(r) == crate::streams::manifest::layout_view(*l),
{
    match l {
        Some(l) => Some(PipelineLayout { rows: l.rows, columns: l.columns, slots: clone_slots(&l.slots) }),
        None => None,
    }
}

pub fn inherit_pipeline_state(cfg: &mut PipelineConfig, base: &PipelineConfig, base_from_persist: bool)
    ensures
        final(cfg)@ == inherited_pipeline(old(cfg)@, base@, base_from_persist),
{
    if !cfg.pipeline_enabled {
        cfg.pipelines = Vec::new();
        cfg.active_pipeline_id = None;
        cfg.active_pipeline_output = None;
        cfg.pipeline_layout = None;
        cfg.pipeline_wires = Vec::new();
        assert(binding_views(cfg.pipelines@) =~= Seq::<BindingView>::empty());
        assert(crate::streams::manifest::wire_views(cfg.pipeline_wires@) =~= Seq::<crate::streams::manifest::WireView>::empty());
        assert(cfg@ =~= inherited_pipeline(old(cfg)@, base@, base_from_persist));
        return;
    }
    proof {
        assert(binding_views(cfg.pipelines@).len() == cfg.pipelines@.len());
        assert(crate::streams::manifest::wire_views(cfg.pipeline_wires@).len() == cfg.pipeline_wires@.len());
    }
    let none_set = cfg.pipelines.len() == 0 && cfg.active_pipeline_id.is_none() && cfg.active_pipeline_output.is_none()
        && cfg.pipeline_layout.is_none() && cfg.pipeline_wires.len() == 0;
    if none_set && !base_from_persist {
        cfg.pipelines = clone_bindings(&base.pipelines);
        cfg.active_pipeline_id = base.active_pipeline_id;
        cfg.active_pipeline_output = clone_opt(&base.active_pipeline_output);
        cfg.pipeline_layout = clone_layout(&base.pipeline_layout);
        cfg.pipeline_wires = clone_wires(&base.pipeline_wires);
    }
    assert(cfg@ =~= inherited_pipeline(old(cfg)@, base@, base_from_persist));
}

/// The first slot from `i` on in cell (`row`, `column`), or the length.
pub open spec fn cell_from(s: Seq<SlotView>, row: u8, column: u8, i: int) -> int
    decreases s.len() - i,
{
    if i < 0 || i >= s.len() {
        s.len() as int
    } else if s[i].row == row && s[i].column == column {
        i
    } else {
        cell_from(s, row, column, i + 1)
    }
}

/// The first slot from `i` on that shows `id` (or shows nothing, for none).
pub open spec fn showing_from(s: Seq<SlotView>, id: Option<u128>, i: int) -> int
    decreases s.len() - i,
{
    if i < 0 || i >= s.len() {
        s.len() as int
    } else if s[i].pipeline_id == id {
        i
    } else {
        showing_from(s, id, i + 1)
    }
}

/// The output the replaced stream showed in the cell of `x`: the same
/// cell's, else that of a cell with the same pipeline, else the active
/// output when the pipeline was active.
pub open spec fn inherited_output(x: SlotView, base: ConfigView, bl: LayoutView) -> Option<Seq<char>> {
    let k1 = cell_from(bl.slots, x.row, x.column, 0);
    let k = if k1 < bl.slots.len() {
        k1
    } else {
        showing_from(bl.slots, x.pipeline_id, 0)
    };
    let from_slot = if k < bl.slots.len() {
        norm_out(bl.slots[k].output_key)
    } else {
        None
    };
    if from_slot is Some {
        from_slot
    } else if base.active_id == x.pipeline_id {
        norm_out(base.active_output)
    } else {
        None
    }
}

/// In a single-view grid, a visible slot that names no output keeps the
/// output the replaced stream showed there.
pub open spec fn single_view_output_kept(c: ConfigView, base: ConfigView) -> ConfigView {
    match (c.layout, base.layout) {
        (Some(l), Some(bl)) => if c.enabled && l.rows == 1 && l.columns == 1 {
            let k0 = crate::streams::pipeline::origin_from(l.slots, 0);
            let k = if k0 < l.slots.len() {
                k0
            } else {
                crate::streams::pipeline::shown_from(l.slots, 0)
            };
            if k < l.slots.len() && norm_out(l.slots[k].output_key) is None && inherited_output(
                l.slots[k],
                base,
                bl,
            ) is Some {
                let x = l.slots[k];
                ConfigView {
                    layout: Some(
                        LayoutView {
                            rows: l.rows,
                            columns: l.columns,
                            slots: l.slots.update(
                                k,
                                SlotView {
                                    row: x.row,
                                    column: x.column,
                                    pipeline_id: x.pipeline_id,
                                    output_key: inherited_output(x, base, bl),
                                },
                            ),
                        },
                    ),
                    ..c
                }
            } else {
                c
            }
        } else {
            c
        },
        _ => c,
    }
}

fn find_slot_cell(v: &Vec<LayoutSlot>, row: u8, column: u8) -> (r: usize)
    ensures
        r == cell_from(slot_views(v@), row, column, 0),
{
    let ghost sv = slot_views(v@);
    let mut i: usize = 0;
    while i < v.len()
        invariant
            sv == slot_views(v@),
            i <= v@.len(),
            cell_from(sv, row, column, 0) == cell_from(sv, row, column, i as int),
        decreases v@.len() - i,
    {
        assert(sv[i as int] == v@[i as int]@);
        if v[i].row == row && v[i].column == column {
            return i;
        }
        i = i + 1;
    }
    i
}

fn find_slot_pipeline(v: &Vec<LayoutSlot>, id: Option<u128>) -> (r: usize)
    ensures
        r == showing_from(slot_views(v@), id, 0),
{
    let ghost sv = slot_views(v@);
    let mut i: usize = 0;
    while i < v.len()
        invariant
            sv == slot_views(v@),
            i <= v@.len(),
            showing_from(sv, id, 0) == showing_from(sv, id, i as int),
        decreases v@.len() - i,
    {
        assert(sv[i as int] == v@[i as int]@);
        if v[i].pipeline_id == id {
            return i;
        }
        i = i + 1;
    }
    i
}

fn inherited_slot_output(x: &LayoutSlot, base: &PipelineConfig, bl: &PipelineLayout) -> (r: Option<String>)
    ensures
        opt_view(r) == inherited_output(x@, base@, bl@),
{
    let k1 = find_slot_cell(&bl.slots, x.row, x.column);
    let k = if k1 < bl.slots.len() {
        k1
    } else {
        find_slot_pipeline(&bl.slots, x.pipeline_id)
    };
    let from_slot = if k < bl.slots.len() {
        assert(slot_views(bl.slots@)[k as int] == bl.slots@[k as int]@);
        normalized_output_value(&bl.slots[k].output_key)
    } else {
        None
    };
    if from_slot.is_some() {
        from_slot
    } else if base.active_pipeline_id == x.pipeline_id {
        normalized_output_value(&base.active_pipeline_output)
    } else {
        None
    }
}

pub fn preserve_single_view_output(cfg: &mut PipelineConfig, base: &PipelineConfig)
    ensures
        final(cfg)@ == single_view_output_kept(old(cfg)@, base@),
{
    if !cfg.pipeline_enabled {
        return;
    }
    let bl = match &base.pipeline_layout {
        Some(bl) => bl,
        None => return,
    };
    let (rows, columns, mut slots) = match &cfg.pipeline_layout {
        Some(l) => (l.rows, l.columns, clone_slots(&l.slots)),
        None => return,
    };
    if rows != 1 || columns != 1 {
        return;
    }
    let ghost sv = slot_views(slots@);
    let k0 = crate::streams::pipeline::find_origin_slot(&slots);
    let k = if k0 < slots.len() {
        k0
    } else {
        crate::streams::pipeline::find_shown_slot(&slots)
    };
    if k >= slots.len() {
        return;
    }
    assert(sv[k as int] == slots@[k as int]@);
    if normalized_output_value(&slots[k].output_key).is_some() {
        return;
    }
    let inherited = inherited_slot_output(&slots[k], base, bl);
    if inherited.is_none() {
        return;
    }
    let x = LayoutSlot { row: slots[k].row, column: slots[k].column, pipeline_id: slots[k].pipeline_id, output_key: inherited };
    let ghost xv = x@;
    slots.set(k, x);
    assert(slot_views(slots@) =~= sv.update(k as int, xv));
    cfg.pipeline_layout = Some(PipelineLayout { rows, columns, slots });
    assert(cfg@ =~= single_view_output_kept(old(cfg)@, base@));
}

} // verus!
