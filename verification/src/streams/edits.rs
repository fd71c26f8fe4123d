//! What the pipeline edit requests do to a stored manifest: selecting the
//! shown output, replacing the grid, replacing the wires, binding a graph
//! or a patch; and how the engine's answer to such an edit is routed.
use vstd::prelude::*;
use crate::streams::engine_reply::{
    body_is, engine_error_body, EngineErrorCode, EngineReply, HttpReply,
};
use crate::streams::grid::{promote_single_view_pipeline_selection, promoted};
use crate::streams::manifest::{
    binding_views, opt_view, slot_views, wire_views, BindingView, ConfigView, LayoutSlot, LayoutView,
    PipelineBinding, PipelineConfig, PipelineLayout, PipelineWire, ReservedPipelineIds, SlotView,
    WireView,
};
use crate::streams::outputs::{clone_opt, norm_out, normalized_output_value};
use crate::streams::pipeline::{find_origin_slot, find_shown_slot, origin_from, shown_from};
use crate::text::{eq_ignore_ascii_case, eq_ignore_case, owned, trim, trim_str};

verus! {

/// The first binding of `id` from index `i` on, or the length.
pub open spec fn binding_index_from(bs: Seq<BindingView>, id: u128, i: int) -> int
    decreases bs.len() - i,
{
    if i < 0 || i >= bs.len() {
        bs.len() as int
    } else if bs[i].pipeline_id == id {
        i
    } else {
        binding_index_from(bs, id, i + 1)
    }
}

pub open spec fn binding_index(bs: Seq<BindingView>, id: u128) -> int {
    binding_index_from(bs, id, 0)
}

pub proof fn lemma_binding_index_from(bs: Seq<BindingView>, id: u128, i: int)
    requires
        0 <= i <= bs.len(),
    ensures
        i <= binding_index_from(bs, id, i) <= bs.len(),
        binding_index_from(bs, id, i) < bs.len() ==> bs[binding_index_from(bs, id, i)].pipeline_id == id,
        forall|k: int| i <= k < binding_index_from(bs, id, i) ==> bs[k].pipeline_id != id,
    decreases bs.len() - i,
{
    if i < bs.len() && bs[i].pipeline_id != id {
        lemma_binding_index_from(bs, id, i + 1);
    }
}

fn find_binding(v: &Vec<PipelineBinding>, id: u128) -> (r: usize)
    ensures
        r == binding_index(binding_views(v@), id),
        r <= v@.len(),
{
    let ghost bv = binding_views(v@);
    proof {
        lemma_binding_index_from(bv, id, 0);
    }
    let mut i: usize = 0;
    while i < v.len()
        invariant
            bv == binding_views(v@),
            i <= v@.len(),
            binding_index(bv, id) == binding_index_from(bv, id, i as int),
        decreases v@.len() - i,
    {
        assert(bv[i as int] == v@[i as int]@);
        if v[i].pipeline_id == id {
            return i;
        }
        i = i + 1;
    }
    i
}

/// The pipeline a single-view grid shows: the one in its top-left cell, or
/// else the first cell's that shows one. Other grids show no single one.
pub open spec fn single_view_pipeline(c: ConfigView) -> Option<u128> {
    match c.layout {
        Some(l) => if l.rows != 1 || l.columns != 1 {
            None
        } else {
            let k = origin_from(l.slots, 0);
            if k < l.slots.len() && l.slots[k].pipeline_id is Some {
                l.slots[k].pipeline_id
            } else {
                let j = shown_from(l.slots, 0);
                if j < l.slots.len() {
                    l.slots[j].pipeline_id
                } else {
                    None
                }
            }
        },
        None => None,
    }
}

pub fn single_view_slot_pipeline_id(cfg: &PipelineConfig) -> (r: Option<u128>)
    ensures
        r == single_view_pipeline(cfg@),
{
    match &cfg.pipeline_layout {
        Some(l) => {
            if l.rows != 1 || l.columns != 1 {
                return None;
            }
            let ghost sv = slot_views(l.slots@);
            let k = find_origin_slot(&l.slots);
            if k < l.slots.len() {
                assert(sv[k as int] == l.slots@[k as int]@);
                if l.slots[k].pipeline_id.is_some() {
                    return l.slots[k].pipeline_id;
                }
            }
            let j = find_shown_slot(&l.slots);
            if j < l.slots.len() {
                assert(sv[j as int] == l.slots@[j as int]@);
                l.slots[j].pipeline_id
            } else {
                None
            }
        },
        None => None,
    }
}

pub open spec fn first_binding_id(c: ConfigView) -> Option<u128> {
    if c.bindings.len() > 0 {
        Some(c.bindings[0].pipeline_id)
    } else {
        None
    }
}

/// The active pipeline, or else the first bound one.
pub open spec fn effective_active(c: ConfigView) -> Option<u128> {
    if c.active_id is Some {
        c.active_id
    } else {
        first_binding_id(c)
    }
}

/// The pipeline an output selection is meant for: the one a single-view
/// grid shows, or else the effective active one.
pub open spec fn output_view(c: ConfigView) -> Option<u128> {
    if single_view_pipeline(c) is Some {
        single_view_pipeline(c)
    } else {
        effective_active(c)
    }
}

/// The pipeline whose output a selection request names; the selection is
/// put in that pipeline's terms before it is applied.
pub fn output_view_pipeline(cfg: &PipelineConfig) -> (r: Option<u128>)
    ensures
        r == output_view(cfg@),
{
    let single = single_view_slot_pipeline_id(cfg);
    if single.is_some() {
        return single;
    }
    if cfg.active_pipeline_id.is_some() {
        cfg.active_pipeline_id
    } else if cfg.pipelines.len() > 0 {
        Some(cfg.pipelines[0].pipeline_id)
    } else {
        None
    }
}

/// A selection trimmed, in the pipeline's own terms where the engine could
/// put it so (`canonical`), else as trimmed.
pub open spec fn output_for(trimmed: Option<Seq<char>>, canonical: Result<Option<Seq<char>>, ()>) -> Option<Seq<char>> {
    match canonical {
        Ok(o) => o,
        Err(_) => trimmed,
    }
}

pub fn normalize_output_for_pipeline(trimmed: Option<String>, canonical: Result<Option<String>, ()>) -> (r: Option<String>)
    ensures
        opt_view(r) == output_for(
            opt_view(trimmed),
            match canonical {
                Ok(o) => Ok(opt_view(o)),
                Err(e) => Err(e),
            },
        ),
{
    match canonical {
        Ok(o) => o,
        Err(_) => trimmed,
    }
}

pub open spec fn with_binding_output(bs: Seq<BindingView>, k: int, out: Option<Seq<char>>) -> Seq<BindingView> {
    bs.update(
        k,
        BindingView { pipeline_id: bs[k].pipeline_id, pipeline_output: out, has_inline_graph: bs[k].has_inline_graph },
    )
}

/// An output selection `out` (already in the pipeline's terms) applied to
/// a manifest: RAW's `undistorted` switches pipelines back on; the active
/// output follows when the selection is for the active pipeline; the
/// selected pipeline's binding (or, with none selected, the first binding,
/// which becomes active) and a single-view grid's top-left cell take it.
pub open spec fn output_applied(c: ConfigView, out: Option<Seq<char>>, ids: ReservedPipelineIds) -> ConfigView {
    let active = effective_active(c);
    let view = output_view(c);
    let implicit_raw = view is None && c.bindings.len() == 0;
    let wants_undistorted = out matches Some(o) && eq_ignore_case(trim(o), "undistorted"@);
    let c1 = if (view == Some(ids.raw) || implicit_raw) && wants_undistorted && !c.enabled {
        ConfigView { enabled: true, ..c }
    } else {
        c
    };
    let c2 = if view == active {
        ConfigView { active_output: out, ..c1 }
    } else {
        c1
    };
    let c3 = match view {
        Some(t) => {
            let k = binding_index(c2.bindings, t);
            if k < c2.bindings.len() {
                ConfigView { bindings: with_binding_output(c2.bindings, k, out), ..c2 }
            } else {
                c2
            }
        },
        None => if c2.bindings.len() > 0 {
            ConfigView {
                bindings: with_binding_output(c2.bindings, 0, out),
                active_id: Some(c2.bindings[0].pipeline_id),
                ..c2
            }
        } else {
            c2
        },
    };
    match c3.layout {
        Some(l) => {
            let k = origin_from(l.slots, 0);
            if l.rows == 1 && l.columns == 1 && k < l.slots.len() {
                ConfigView {
                    layout: Some(
                        LayoutView {
                            rows: l.rows,
                            columns: l.columns,
                            slots: l.slots.update(
                                k,
                                SlotView { row: l.slots[k].row, column: l.slots[k].column, pipeline_id: l.slots[k].pipeline_id, output_key: out },
                            ),
                        },
                    ),
                    ..c3
                }
            } else {
                c3
            }
        },
        None => c3,
    }
}

fn set_binding_output(v: &mut Vec<PipelineBinding>, k: usize, out: &Option<String>)
    requires
        k < old(v)@.len(),
    ensures
        binding_views(final(v)@) == with_binding_output(binding_views(old(v)@), k as int, opt_view(*out)),
{
    let ghost before = binding_views(v@);
    let b = PipelineBinding { pipeline_id: v[k].pipeline_id, pipeline_output: clone_opt(out), has_inline_graph: v[k].has_inline_graph };
    assert(before[k as int] == v@[k as int]@);
    v.set(k, b);
    assert(binding_views(v@) =~= with_binding_output(before, k as int, opt_view(*out)));
}

pub fn apply_output_selection(cfg: &mut PipelineConfig, out: Option<String>, ids: &ReservedPipelineIds)
    ensures
        final(cfg)@ == output_applied(old(cfg)@, opt_view(out), *ids),
{
    let ghost c0 = cfg@;
    let view = output_view_pipeline(cfg);
    let active = if cfg.active_pipeline_id.is_some() {
        cfg.active_pipeline_id
    } else if cfg.pipelines.len() > 0 {
        Some(cfg.pipelines[0].pipeline_id)
    } else {
        None
    };
    let implicit_raw = view.is_none() && cfg.pipelines.len() == 0;
    let wants_undistorted = match &out {
        Some(o) => eq_ignore_ascii_case(trim_str(o.as_str()), "undistorted"),
        None => false,
    };
    proof {
        reveal_strlit("undistorted");
    }
    if (view == Some(ids.raw) || implicit_raw) && wants_undistorted && !cfg.pipeline_enabled {
        cfg.pipeline_enabled = true;
    }
    if view == active {
        cfg.active_pipeline_output = clone_opt(&out);
    }
    let ghost c2 = cfg@;
    match view {
        Some(t) => {
            let k = find_binding(&cfg.pipelines, t);
            if k < cfg.pipelines.len() {
                set_binding_output(&mut cfg.pipelines, k, &out);
            }
        },
        None => {
            if cfg.pipelines.len() > 0 {
                set_binding_output(&mut cfg.pipelines, 0, &out);
                cfg.active_pipeline_id = Some(cfg.pipelines[0].pipeline_id);
                assert(cfg@.bindings[0].pipeline_id == c2.bindings[0].pipeline_id);
            }
        },
    }
    let ghost c3 = cfg@;
    assert(c3.layout == c0.layout);
    let layout = match &cfg.pipeline_layout {
        Some(l) => {
            let k = find_origin_slot(&l.slots);
            if l.rows == 1 && l.columns == 1 && k < l.slots.len() {
                let mut slots = crate::streams::lifecycle::clone_slots(&l.slots);
                let ghost sv = slot_views(slots@);
                assert(sv[k as int] == slots@[k as int]@);
                let x = LayoutSlot { row: slots[k].row, column: slots[k].column, pipeline_id: slots[k].pipeline_id, output_key: clone_opt(&out) };
                let ghost xv = x@;
                slots.set(k, x);
                assert(slot_views(slots@) =~= sv.update(k as int, xv));
                Some(PipelineLayout { rows: l.rows, columns: l.columns, slots })
            } else {
                None
            }
        },
        None => None,
    };
    if layout.is_some() {
        cfg.pipeline_layout = layout;
    }
    assert(cfg@ =~= output_applied(c0, opt_view(out), *ids));
}

// ---------------------------------------------------------------------------
// Replacing the grid.

/// A requested grid never keeps the internal calibration-mode pipeline:
/// its cells are emptied.
pub open spec fn without_calibration_cell(x: SlotView, ids: ReservedPipelineIds) -> SlotView {
    if x.pipeline_id == Some(ids.calibration_mode) {
        SlotView { row: x.row, column: x.column, pipeline_id: None, output_key: None }
    } else {
        x
    }
}

pub fn clear_calibration_slots(layout: &mut PipelineLayout, ids: &ReservedPipelineIds)
    ensures
        final(layout)@.rows == old(layout)@.rows,
        final(layout)@.columns == old(layout)@.columns,
        final(layout)@.slots == old(layout)@.slots.map_values(|x: SlotView| without_calibration_cell(x, *ids)),
{
    let ghost sv0 = slot_views(layout.slots@);
    let ghost l0 = layout@;
    let mut i: usize = 0;
    while i < layout.slots.len()
        invariant
            layout.rows == l0.rows,
            layout.columns == l0.columns,
            layout.slots@.len() == sv0.len(),
            i <= sv0.len(),
            forall|k: int| 0 <= k < i ==> (#[trigger] slot_views(layout.slots@)[k]) == without_calibration_cell(sv0[k], *ids),
            forall|k: int| i <= k < sv0.len() ==> (#[trigger] slot_views(layout.slots@)[k]) == sv0[k],
        decreases sv0.len() - i,
    {
        let ghost before = slot_views(layout.slots@);
        assert(before[i as int] == layout.slots@[i as int]@);
        if layout.slots[i].pipeline_id == Some(ids.calibration_mode) {
            let x = LayoutSlot { row: layout.slots[i].row, column: layout.slots[i].column, pipeline_id: None, output_key: None };
            let ghost xv = x@;
            layout.slots.set(i, x);
            assert(slot_views(layout.slots@) =~= before.update(i as int, xv));
        }
        i = i + 1;
    }
    assert(slot_views(layout.slots@) =~= sv0.map_values(|x: SlotView| without_calibration_cell(x, *ids)));
}

/// A cell that shows a pipeline a user may choose.
pub open spec fn user_cell(x: SlotView, ids: ReservedPipelineIds) -> bool {
    x.pipeline_id is Some && x.pipeline_id != Some(ids.calibration_mode)
}

pub open spec fn has_binding(bs: Seq<BindingView>, id: u128) -> bool {
    exists|i: int| 0 <= i < bs.len() && (#[trigger] bs[i]).pipeline_id == id
}

/// The bindings after a grid was set: each pipeline a cell shows that has
/// no binding yet gets one, in cell order (never RAW or calibration-mode).
pub open spec fn bindings_for_cells(bs: Seq<BindingView>, slots: Seq<SlotView>, ids: ReservedPipelineIds) -> Seq<BindingView>
    decreases slots.len(),
{
    if slots.len() == 0 {
        bs
    } else {
        let prev = bindings_for_cells(bs, slots.drop_last(), ids);
        match slots.last().pipeline_id {
            Some(p) => if p != ids.calibration_mode && p != ids.raw && !has_binding(prev, p) {
                prev.push(BindingView { pipeline_id: p, pipeline_output: None, has_inline_graph: false })
            } else {
                prev
            },
            None => prev,
        }
    }
}

/// The first user cell at row 0, column 0 from index `i` on, or the length.
pub open spec fn user_origin_from(s: Seq<SlotView>, ids: ReservedPipelineIds, i: int) -> int
    decreases s.len() - i,
{
    if i < 0 || i >= s.len() {
        s.len() as int
    } else if s[i].row == 0 && s[i].column == 0 && user_cell(s[i], ids) {
        i
    } else {
        user_origin_from(s, ids, i + 1)
    }
}

/// The first user cell from index `i` on, or the length.
pub open spec fn user_cell_from(s: Seq<SlotView>, ids: ReservedPipelineIds, i: int) -> int
    decreases s.len() - i,
{
    if i < 0 || i >= s.len() {
        s.len() as int
    } else if user_cell(s[i], ids) {
        i
    } else {
        user_cell_from(s, ids, i + 1)
    }
}

/// The stored output of the first binding of `id`, as stored.
pub open spec fn binding_stored_output(bs: Seq<BindingView>, id: u128) -> Option<Seq<char>> {
    let k = binding_index(bs, id);
    if k < bs.len() {
        bs[k].pipeline_output
    } else {
        None
    }
}

/// A grid request applied to a manifest. No grid: the grid is dropped.
/// A grid: pipelines come on, cells' pipelines get bindings, and when the
/// grid is a single cell or no longer shows the active pipeline, the
/// active selection moves to the grid's first user cell (top-left first),
/// taking RAW's cell output, else the binding's output when the active
/// pipeline changes or had none; with no user cell nothing is active.
pub open spec fn layout_applied(c: ConfigView, req: Option<LayoutView>, ids: ReservedPipelineIds) -> ConfigView {
    match req {
        None => ConfigView { layout: None, ..c },
        Some(l) => {
            let bs = bindings_for_cells(c.bindings, l.slots, ids);
            let single = l.rows == 1 && l.columns == 1;
            let active_in = c.active_id matches Some(a) && a != ids.calibration_mode && exists|k: int|
                0 <= k < l.slots.len() && (#[trigger] l.slots[k]).pipeline_id == Some(a);
            let base = ConfigView { enabled: true, bindings: bs, layout: Some(l), ..c };
            if !single && active_in {
                base
            } else {
                let k0 = user_origin_from(l.slots, ids, 0);
                let k = if k0 < l.slots.len() {
                    k0
                } else {
                    user_cell_from(l.slots, ids, 0)
                };
                if k < l.slots.len() {
                    let aid = l.slots[k].pipeline_id->0;
                    let cell_out = norm_out(l.slots[k].output_key);
                    let changed = c.active_id != Some(aid);
                    let out = if aid == ids.raw {
                        if cell_out is Some {
                            cell_out
                        } else if changed {
                            binding_stored_output(bs, aid)
                        } else {
                            c.active_output
                        }
                    } else if changed || c.active_output is None {
                        binding_stored_output(bs, aid)
                    } else {
                        c.active_output
                    };
                    ConfigView { active_id: Some(aid), active_output: out, ..base }
                } else {
                    ConfigView { active_id: None, active_output: None, ..base }
                }
            }
        },
    }
}

fn has_binding_exec(v: &Vec<PipelineBinding>, id: u128) -> (r: bool)
    ensures
        r == has_binding(binding_views(v@), id),
{
    let k = find_binding(v, id);
    proof {
        lemma_binding_index_from(binding_views(v@), id, 0);
        if k < v@.len() {
            assert(binding_views(v@)[k as int].pipeline_id == id);
        }
    }
    k < v.len()
}

fn find_user_cell(v: &Vec<LayoutSlot>, ids: &ReservedPipelineIds, origin_only: bool) -> (r: usize)
    ensures
        origin_only ==> r == user_origin_from(slot_views(v@), *ids, 0),
        !origin_only ==> r == user_cell_from(slot_views(v@), *ids, 0),
{
    let ghost sv = slot_views(v@);
    let mut i: usize = 0;
    while i < v.len()
        invariant
            sv == slot_views(v@),
            i <= v@.len(),
            origin_only ==> user_origin_from(sv, *ids, 0) == user_origin_from(sv, *ids, i as int),
            !origin_only ==> user_cell_from(sv, *ids, 0) == user_cell_from(sv, *ids, i as int),
        decreases v@.len() - i,
    {
        assert(sv[i as int] == v@[i as int]@);
        let x = &v[i];
        let user = x.pipeline_id.is_some() && x.pipeline_id != Some(ids.calibration_mode);
        if user && (!origin_only || (x.row == 0 && x.column == 0)) {
            return i;
        }
        i = i + 1;
    }
    i
}

fn shows_pipeline(v: &Vec<LayoutSlot>, id: u128) -> (r: bool)
    ensures
        r == exists|k: int| 0 <= k < v@.len() && (#[trigger] slot_views(v@)[k]).pipeline_id == Some(id),
{
    let ghost sv = slot_views(v@);
    let mut i: usize = 0;
    while i < v.len()
        invariant
            sv == slot_views(v@),
            i <= v@.len(),
            forall|k: int| 0 <= k < i ==> (#[trigger] sv[k]).pipeline_id != Some(id),
        decreases v@.len() - i,
    {
        assert(sv[i as int] == v@[i as int]@);
        if v[i].pipeline_id == Some(id) {
            return true;
        }
        i = i + 1;
    }
    false
}

fn stored_output(v: &Vec<PipelineBinding>, id: u128) -> (r: Option<String>)
    ensures
        opt_view(r) == binding_stored_output(binding_views(v@), id),
{
    let k = find_binding(v, id);
    if k < v.len() {
        assert(binding_views(v@)[k as int] == v@[k as int]@);
        clone_opt(&v[k].pipeline_output)
    } else {
        None
    }
}

/// Gives each pipeline a grid cell shows a binding, when it has none.
fn bind_cell_pipelines(bindings: &mut Vec<PipelineBinding>, slots: &Vec<LayoutSlot>, ids: &ReservedPipelineIds)
    ensures
        binding_views(final(bindings)@) == bindings_for_cells(binding_views(old(bindings)@), slot_views(slots@), *ids),
{
    let ghost b0 = binding_views(bindings@);
    let ghost sv = slot_views(slots@);
    let mut i: usize = 0;
    assert(sv.subrange(0, 0).len() == 0);
    while i < slots.len()
        invariant
            sv == slot_views(slots@),
            i <= slots@.len(),
            binding_views(bindings@) == bindings_for_cells(b0, sv.subrange(0, i as int), *ids),
        decreases slots@.len() - i,
    {
        let ghost prev = binding_views(bindings@);
        assert(sv.subrange(0, i + 1).drop_last() =~= sv.subrange(0, i as int));
        assert(sv.subrange(0, i + 1).last() == sv[i as int]);
        assert(sv[i as int] == slots@[i as int]@);
        match slots[i].pipeline_id {
            Some(p) => {
                if p != ids.calibration_mode && p != ids.raw && !has_binding_exec(bindings, p) {
                    let b = PipelineBinding { pipeline_id: p, pipeline_output: None, has_inline_graph: false };
                    let ghost bv = b@;
                    bindings.push(b);
                    assert(binding_views(bindings@) =~= prev.push(bv));
                }
            },
            None => {},
        }
        i = i + 1;
    }
    assert(sv.subrange(0, sv.len() as int) =~= sv);
}

pub fn apply_layout_selection(cfg: &mut PipelineConfig, req: Option<PipelineLayout>, ids: &ReservedPipelineIds)
    ensures
        final(cfg)@ == layout_applied(old(cfg)@, crate::streams::manifest::layout_view(req), *ids),
{
    let ghost c0 = cfg@;
    let l = match req {
        None => {
            cfg.pipeline_layout = None;
            assert(cfg@ =~= layout_applied(c0, None, *ids));
            return;
        },
        Some(l) => l,
    };
    let ghost lv = l@;
    bind_cell_pipelines(&mut cfg.pipelines, &l.slots, ids);
    cfg.pipeline_enabled = true;
    let single = l.rows == 1 && l.columns == 1;
    let active_in = match cfg.active_pipeline_id {
        Some(a) => a != ids.calibration_mode && shows_pipeline(&l.slots, a),
        None => false,
    };
    let ghost sv = slot_views(l.slots@);
    if single || !active_in {
        let k0 = find_user_cell(&l.slots, ids, true);
        let k = if k0 < l.slots.len() {
            k0
        } else {
            find_user_cell(&l.slots, ids, false)
        };
        proof {
            lemma_user_cells(sv, *ids, 0);
        }
        if k < l.slots.len() {
            assert(sv[k as int] == l.slots@[k as int]@);
            let aid = match l.slots[k].pipeline_id {
                Some(a) => a,
                None => 0,
            };
            let cell_out = normalized_output_value(&l.slots[k].output_key);
            let changed = cfg.active_pipeline_id != Some(aid);
            let out = if aid == ids.raw {
                if cell_out.is_some() {
                    cell_out
                } else if changed {
                    stored_output(&cfg.pipelines, aid)
                } else {
                    clone_opt(&cfg.active_pipeline_output)
                }
            } else if changed || cfg.active_pipeline_output.is_none() {
                stored_output(&cfg.pipelines, aid)
            } else {
                clone_opt(&cfg.active_pipeline_output)
            };
            cfg.active_pipeline_id = Some(aid);
            cfg.active_pipeline_output = out;
        } else {
            cfg.active_pipeline_id = None;
            cfg.active_pipeline_output = None;
        }
    }
    cfg.pipeline_layout = Some(l);
    assert(cfg@ =~= layout_applied(c0, Some(lv), *ids));
}

pub proof fn lemma_user_cells(s: Seq<SlotView>, ids: ReservedPipelineIds, i: int)
    requires
        0 <= i <= s.len(),
    ensures
        i <= user_origin_from(s, ids, i) <= s.len(),
        i <= user_cell_from(s, ids, i) <= s.len(),
        user_origin_from(s, ids, i) < s.len() ==> user_cell(s[user_origin_from(s, ids, i)], ids),
        user_cell_from(s, ids, i) < s.len() ==> user_cell(s[user_cell_from(s, ids, i)], ids),
    decreases s.len() - i,
{
    if i < s.len() {
        lemma_user_cells(s, ids, i + 1);
    }
}

// ---------------------------------------------------------------------------
// Replacing the wires.

/// The wires a request may set: none that touches the internal
/// calibration-mode pipeline.
pub fn retain_user_wires(wires: &Vec<PipelineWire>, ids: &ReservedPipelineIds) -> (r: Vec<PipelineWire>)
    ensures
        wire_views(r@) == crate::streams::pipeline::wires_without(wire_views(wires@), ids.calibration_mode),
{
    crate::streams::pipeline::keep_wires_without(wires, ids.calibration_mode)
}

/// Wires replace the stored ones; any wire switches pipelines on.
pub open spec fn wires_applied(c: ConfigView, wires: Seq<WireView>) -> ConfigView {
    ConfigView { wires, enabled: c.enabled || wires.len() > 0, ..c }
}

pub fn apply_wires(cfg: &mut PipelineConfig, wires: Vec<PipelineWire>)
    ensures
        final(cfg)@ == wires_applied(old(cfg)@, wire_views(wires@)),
{
    if wires.len() > 0 {
        cfg.pipeline_enabled = true;
    }
    cfg.pipeline_wires = wires;
}

// ---------------------------------------------------------------------------
// Binding a graph or a patch to a pipeline.

/// Which request names the pipeline: a graph or a graph patch.
#[derive(Debug, Clone, Copy, PartialEq, Eq, Structural)]
pub enum GraphEdit {
    Graph,
    Patch,
}

pub open spec fn reserved_graph_message(edit: GraphEdit) -> Seq<char> {
    match edit {
        GraphEdit::Graph => "reserved pipeline ids cannot be set via /streams/{id}/pipeline/graph"@,
        GraphEdit::Patch => "reserved pipeline ids cannot be patched via /streams/{id}/pipeline/graph/patch"@,
    }
}

/// A graph request must name a pipeline, and not a reserved one; both
/// refusals are `400` with `invalid_state`.
pub fn check_graph_target(pipeline_id: Option<u128>, ids: &ReservedPipelineIds, edit: GraphEdit) -> (r: Result<u128, HttpReply>)
    ensures
        match pipeline_id {
            None => r matches Err(h) && h.status == 400 && body_is(h.body, EngineErrorCode::InvalidState, "pipeline_id is required"@),
            Some(p) => if p == ids.raw || p == ids.calibration_mode {
                r matches Err(h) && h.status == 400 && body_is(h.body, EngineErrorCode::InvalidState, reserved_graph_message(edit))
            } else {
                r == Ok::<u128, HttpReply>(p)
            },
        },
{
    proof {
        reveal_strlit("pipeline_id is required");
        reveal_strlit("reserved pipeline ids cannot be set via /streams/{id}/pipeline/graph");
        reveal_strlit("reserved pipeline ids cannot be patched via /streams/{id}/pipeline/graph/patch");
    }
    match pipeline_id {
        None => Err(HttpReply {
            status: 400,
            body: Some(engine_error_body(Some(EngineErrorCode::InvalidState), owned("pipeline_id is required"))),
        }),
        Some(p) => {
            if p == ids.raw || p == ids.calibration_mode {
                let message = match edit {
                    GraphEdit::Graph => owned("reserved pipeline ids cannot be set via /streams/{id}/pipeline/graph"),
                    GraphEdit::Patch => owned("reserved pipeline ids cannot be patched via /streams/{id}/pipeline/graph/patch"),
                };
                Err(HttpReply { status: 400, body: Some(engine_error_body(Some(EngineErrorCode::InvalidState), message)) })
            } else {
                Ok(p)
            }
        },
    }
}

/// A graph (with `output`, or a patch with none) bound to pipeline `id`:
/// its binding takes a given output (a new binding is appended when there
/// is none), pipelines come on, the pipeline becomes active when none is,
/// the active output follows a given output, and a single-view grid that
/// shows RAW or nothing is brought to the pipeline.
pub open spec fn graph_bound(c: ConfigView, id: u128, output: Option<Seq<char>>, ids: ReservedPipelineIds) -> ConfigView {
    let k = binding_index(c.bindings, id);
    let bs = if k < c.bindings.len() {
        if output is Some {
            with_binding_output(c.bindings, k, output)
        } else {
            c.bindings
        }
    } else {
        c.bindings.push(BindingView { pipeline_id: id, pipeline_output: output, has_inline_graph: false })
    };
    let active = if c.active_id is None {
        Some(id)
    } else {
        c.active_id
    };
    let c1 = ConfigView { bindings: bs, enabled: true, active_id: active, ..c };
    let c2 = if output is Some && active == Some(id) {
        ConfigView { active_output: output, ..c1 }
    } else {
        c1
    };
    promoted(c2, id, output, ids)
}

/// Binds a graph or a patch to pipeline `id` and tells the index of its
/// binding, where the caller keeps the patch (a graph clears it).
pub fn bind_pipeline_graph(cfg: &mut PipelineConfig, id: u128, output: &Option<String>, ids: &ReservedPipelineIds) -> (k: usize)
    ensures
        final(cfg)@ == graph_bound(old(cfg)@, id, opt_view(*output), *ids),
        k < final(cfg)@.bindings.len(),
        final(cfg)@.bindings[k as int].pipeline_id == id,
{
    let ghost c0 = cfg@;
    let k = find_binding(&cfg.pipelines, id);
    proof {
        lemma_binding_index_from(c0.bindings, id, 0);
    }
    if k < cfg.pipelines.len() {
        if output.is_some() {
            set_binding_output(&mut cfg.pipelines, k, output);
        }
    } else {
        let b = PipelineBinding { pipeline_id: id, pipeline_output: clone_opt(output), has_inline_graph: false };
        let ghost bv = b@;
        cfg.pipelines.push(b);
        assert(binding_views(cfg.pipelines@) =~= c0.bindings.push(bv));
    }
    cfg.pipeline_enabled = true;
    if cfg.active_pipeline_id.is_none() {
        cfg.active_pipeline_id = Some(id);
    }
    if output.is_some() && cfg.active_pipeline_id == Some(id) {
        cfg.active_pipeline_output = clone_opt(output);
    }
    let ghost c2 = cfg@;
    promote_single_view_pipeline_selection(cfg, id, output, ids);
    assert(cfg@.bindings == c2.bindings);
    k
}

// ---------------------------------------------------------------------------
// Routing the engine's answer to an edit.

/// The kinds of I/O failure that mean the engine is not running.
#[derive(Debug, Clone, Copy, PartialEq, Eq, Structural)]
pub enum IoErrorKind {
    BrokenPipe,
    ConnectionRefused,
    ConnectionReset,
    NotConnected,
    Other,
}

/// A failure to reach the engine: an I/O error (its kind, its own text)
/// or another failure; `message` is the whole error's text.
#[derive(Debug, Clone, PartialEq, Eq)]
pub enum TransportError {
    Io { kind: IoErrorKind, detail: String, message: String },
    Other { message: String },
}

pub open spec fn transport_message(e: TransportError) -> Seq<char> {
    match e {
        TransportError::Io { message, .. } => message@,
        TransportError::Other { message } => message@,
    }
}

/// Only a dropped or refused connection means the engine is unavailable;
/// a timeout does not.
pub open spec fn engine_unavailable(e: TransportError) -> bool {
    match e {
        TransportError::Io { kind, detail, .. } => kind != IoErrorKind::Other || crate::text::contains(
            detail@,
            "engine connection unavailable"@,
        ),
        TransportError::Other { .. } => false,
    }
}

pub fn is_engine_unavailable(e: &TransportError) -> (r: bool)
    ensures
        r == engine_unavailable(*e),
{
    match e {
        TransportError::Io { kind, detail, .. } => {
            match kind {
                IoErrorKind::Other => crate::text::contains_str(detail.as_str(), "engine connection unavailable"),
                _ => true,
            }
        },
        TransportError::Other { .. } => false,
    }
}

/// What an edit handler does after the engine answered.
#[derive(Debug, Clone, PartialEq, Eq)]
pub enum EditRoute {
    /// The running stream took the edit: store it with the live manifest.
    PersistLive,
    /// No running stream has it: edit the stored manifest alone.
    PersistStored,
    /// Answer at once.
    Reply(HttpReply),
}

/// An acknowledged edit is stored with the live stream; an unknown stream,
/// or (where `stored_when_unavailable`) an engine that is not running,
/// edits the stored manifest; another refusal is `400` with the engine's
/// code and reason; an unexpected event `502`; another failure `502` with
/// its text.
pub open spec fn edit_route_ok(reply: Result<EngineReply, TransportError>, stored_when_unavailable: bool, r: EditRoute) -> bool {
    match reply {
        Ok(EngineReply::Ack) => r == EditRoute::PersistLive,
        Ok(EngineReply::Nack { code, reason }) => if code == EngineErrorCode::NotFound {
            r == EditRoute::PersistStored
        } else {
            r matches EditRoute::Reply(h) && h.status == 400 && body_is(h.body, code, reason@)
        },
        Ok(EngineReply::Unexpected) => r matches EditRoute::Reply(h) && h.status == 502 && body_is(
            h.body,
            EngineErrorCode::Internal,
            "unexpected engine response"@,
        ),
        Err(e) => if stored_when_unavailable && engine_unavailable(e) {
            r == EditRoute::PersistStored
        } else {
            r matches EditRoute::Reply(h) && h.status == 502 && body_is(h.body, EngineErrorCode::Internal, transport_message(e))
        },
    }
}

fn transport_text(e: &TransportError) -> (r: String)
    ensures
        r@ == transport_message(*e),
{
    match e {
        TransportError::Io { message, .. } => message.clone(),
        TransportError::Other { message } => message.clone(),
    }
}

pub fn edit_route(reply: &Result<EngineReply, TransportError>, stored_when_unavailable: bool) -> (r: EditRoute)
    ensures
        edit_route_ok(*reply, stored_when_unavailable, r),
{
    match reply {
        Ok(EngineReply::Ack) => EditRoute::PersistLive,
        Ok(EngineReply::Nack { code, reason }) => {
            if *code == EngineErrorCode::NotFound {
                EditRoute::PersistStored
            } else {
                EditRoute::Reply(HttpReply { status: 400, body: Some(engine_error_body(Some(*code), reason.clone())) })
            }
        },
        Ok(EngineReply::Unexpected) => EditRoute::Reply(
            HttpReply {
                status: 502,
                body: Some(engine_error_body(Some(EngineErrorCode::Internal), owned("unexpected engine response"))),
            },
        ),
        Err(e) => {
            if stored_when_unavailable && is_engine_unavailable(e) {
                EditRoute::PersistStored
            } else {
                EditRoute::Reply(HttpReply { status: 502, body: Some(engine_error_body(Some(EngineErrorCode::Internal), transport_text(e))) })
            }
        },
    }
}

/// A patch the engine refuses or cannot take is a `502`: with the engine's
/// code for a refusal, `invalid_state` otherwise.
pub open spec fn patch_route_ok(reply: Result<EngineReply, TransportError>, r: EditRoute) -> bool {
    match reply {
        Ok(EngineReply::Ack) => r == EditRoute::PersistLive,
        Ok(EngineReply::Nack { code, reason }) => if code == EngineErrorCode::NotFound {
            r == EditRoute::PersistStored
        } else {
            r matches EditRoute::Reply(h) && h.status == 502 && body_is(h.body, code, "engine rejected patch: "@ + reason@)
        },
        Ok(EngineReply::Unexpected) => r matches EditRoute::Reply(h) && h.status == 502 && body_is(
            h.body,
            EngineErrorCode::InvalidState,
            "unexpected engine response"@,
        ),
        Err(e) => r matches EditRoute::Reply(h) && h.status == 502 && body_is(
            h.body,
            EngineErrorCode::InvalidState,
            "engine error: "@ + transport_message(e),
        ),
    }
}

pub fn patch_route(reply: &Result<EngineReply, TransportError>) -> (r: EditRoute)
    ensures
        patch_route_ok(*reply, r),
{
    match reply {
        Ok(EngineReply::Ack) => EditRoute::PersistLive,
        Ok(EngineReply::Nack { code, reason }) => {
            if *code == EngineErrorCode::NotFound {
                EditRoute::PersistStored
            } else {
                let mut message = owned("engine rejected patch: ");
                message.append(reason.as_str());
                EditRoute::Reply(HttpReply { status: 502, body: Some(engine_error_body(Some(*code), message)) })
            }
        },
        Ok(EngineReply::Unexpected) => EditRoute::Reply(
            HttpReply {
                status: 502,
                body: Some(engine_error_body(Some(EngineErrorCode::InvalidState), owned("unexpected engine response"))),
            },
        ),
        Err(e) => {
            let mut message = owned("engine error: ");
            message.append(transport_text(e).as_str());
            EditRoute::Reply(HttpReply { status: 502, body: Some(engine_error_body(Some(EngineErrorCode::InvalidState), message)) })
        },
    }
}

/// After the stored manifest was edited: `204` when a stored stream had
/// it, `404` when none had, `500` when storing failed.
pub open spec fn stored_edit_reply_ok(stored: Result<bool, String>, r: HttpReply) -> bool {
    match stored {
        Ok(found) => r.status == (if found {
            204u16
        } else {
            404u16
        }) && r.body is None,
        Err(e) => r.status == 500 && body_is(r.body, EngineErrorCode::Internal, "failed to persist stream manifest: "@ + e@),
    }
}

pub fn stored_edit_reply(stored: &Result<bool, String>) -> (r: HttpReply)
    ensures
        stored_edit_reply_ok(*stored, r),
{
    match stored {
        Ok(found) => HttpReply {
            status: if *found {
                204
            } else {
                404
            },
            body: None,
        },
        Err(e) => {
            let mut message = owned("failed to persist stream manifest: ");
            message.append(e.as_str());
            HttpReply { status: 500, body: Some(engine_error_body(Some(EngineErrorCode::Internal), message)) }
        },
    }
}

/// After the live manifest was stored: `204`, or `500` with the failure.
pub fn live_edit_reply(stored: &Result<(), String>) -> (r: HttpReply)
    ensures
        match *stored {
            Ok(_) => r.status == 204 && r.body is None,
            Err(e) => r.status == 500 && body_is(r.body, EngineErrorCode::Internal, e@),
        },
{
    match stored {
        Ok(_) => HttpReply { status: 204, body: None },
        Err(e) => HttpReply { status: 500, body: Some(engine_error_body(Some(EngineErrorCode::Internal), e.clone())) },
    }
}

// ---------------------------------------------------------------------------
// The key a stream's manifest is stored under.

/// `a < b` for strings: by code points, a proper prefix first.
pub open spec fn lex_lt_from(a: Seq<char>, b: Seq<char>, i: int) -> bool
    decreases a.len() - i,
{
    if i < 0 || i >= a.len() {
        0 <= i < b.len()
    } else if i >= b.len() {
        false
    } else if a[i] != b[i] {
        (a[i] as u32) < (b[i] as u32)
    } else {
        lex_lt_from(a, b, i + 1)
    }
}

pub open spec fn lex_lt(a: Seq<char>, b: Seq<char>) -> bool {
    lex_lt_from(a, b, 0)
}

pub proof fn lemma_lex_lt_irreflexive(a: Seq<char>, i: int)
    requires
        0 <= i,
    ensures
        !lex_lt_from(a, a, i),
    decreases a.len() - i,
{
    if i < a.len() {
        lemma_lex_lt_irreflexive(a, i + 1);
    }
}

pub proof fn lemma_lex_lt_transitive(a: Seq<char>, b: Seq<char>, c: Seq<char>, i: int)
    requires
        0 <= i,
        lex_lt_from(a, b, i),
        lex_lt_from(b, c, i),
    ensures
        lex_lt_from(a, c, i),
    decreases a.len() - i,
{
    if i < a.len() && i < b.len() && i < c.len() && a[i] == b[i] && b[i] == c[i] {
        lemma_lex_lt_transitive(a, b, c, i + 1);
    }
}

proof fn lemma_char_codes_differ(c: char, d: char)
    requires
        c != d,
    ensures
        (c as u32) != (d as u32),
{
    assert((c as u32) as int == c as int);
    assert((d as u32) as int == d as int);
}

proof fn lemma_lex_neither_from(a: Seq<char>, b: Seq<char>, i: int)
    requires
        0 <= i <= a.len(),
        i <= b.len(),
        !lex_lt_from(a, b, i),
        !lex_lt_from(b, a, i),
    ensures
        a.subrange(i, a.len() as int) == b.subrange(i, b.len() as int),
    decreases a.len() - i,
{
    if i < a.len() && i < b.len() {
        if a[i] == b[i] {
            lemma_lex_neither_from(a, b, i + 1);
            assert(a.subrange(i, a.len() as int) =~= seq![a[i]] + a.subrange(i + 1, a.len() as int));
            assert(b.subrange(i, b.len() as int) =~= seq![b[i]] + b.subrange(i + 1, b.len() as int));
        } else {
            lemma_char_codes_differ(a[i], b[i]);
        }
    } else {
        assert(a.subrange(i, a.len() as int) =~= b.subrange(i, b.len() as int));
    }
}

/// Of two different strings, one comes first.
pub proof fn lemma_lex_total(a: Seq<char>, b: Seq<char>)
    requires
        a != b,
    ensures
        lex_lt(a, b) || lex_lt(b, a),
{
    if !lex_lt(a, b) && !lex_lt(b, a) {
        lemma_lex_neither_from(a, b, 0);
        assert(a.subrange(0, a.len() as int) =~= a);
        assert(b.subrange(0, b.len() as int) =~= b);
    }
}

pub fn str_less(a: &str, b: &str) -> (r: bool)
    ensures
        r == lex_lt(a@, b@),
{
    let n = a.unicode_len();
    let m = b.unicode_len();
    let mut i: usize = 0;
    while i < n && i < m && a.get_char(i) == b.get_char(i)
        invariant
            n == a@.len(),
            m == b@.len(),
            i <= n,
            i <= m,
            lex_lt(a@, b@) == lex_lt_from(a@, b@, i as int),
        decreases n - i,
    {
        i = i + 1;
    }
    if i >= n {
        i < m
    } else if i >= m {
        false
    } else {
        (a.get_char(i) as u32) < (b.get_char(i) as u32)
    }
}

/// The least of the strings (the first of a sort).
pub open spec fn least_of(v: Seq<Seq<char>>) -> Seq<char>
    decreases v.len(),
{
    if v.len() <= 1 {
        if v.len() == 1 {
            v[0]
        } else {
            Seq::empty()
        }
    } else {
        let m = least_of(v.drop_last());
        if lex_lt(v.last(), m) {
            v.last()
        } else {
            m
        }
    }
}

/// The first string from `i` on that holds `c`, or the length.
pub open spec fn first_holding(v: Seq<Seq<char>>, c: char, i: int) -> int
    decreases v.len() - i,
{
    if i < 0 || i >= v.len() {
        v.len() as int
    } else if crate::text::contains(v[i], seq![c]) {
        i
    } else {
        first_holding(v, c, i + 1)
    }
}

fn find_holding(v: &Vec<String>, c: &str) -> (r: usize)
    requires
        c@.len() == 1,
    ensures
        r == first_holding(crate::text::views(v@), c@[0], 0),
        r <= v@.len(),
{
    let ghost vv = crate::text::views(v@);
    assert(c@ =~= seq![c@[0]]);
    let mut i: usize = 0;
    while i < v.len()
        invariant
            vv == crate::text::views(v@),
            c@ == seq![c@[0]],
            i <= v@.len(),
            first_holding(vv, c@[0], 0) == first_holding(vv, c@[0], i as int),
        decreases v@.len() - i,
    {
        assert(vv[i as int] == v@[i as int]@);
        if crate::text::contains_str(v[i].as_str(), c) {
            return i;
        }
        i = i + 1;
    }
    i
}

fn least_string(v: &Vec<String>) -> (r: String)
    requires
        v@.len() > 0,
    ensures
        r@ == least_of(crate::text::views(v@)),
{
    let ghost vv = crate::text::views(v@);
    let mut best = v[0].clone();
    let mut i: usize = 1;
    assert(vv.subrange(0, 1) =~= seq![vv[0]]);
    while i < v.len()
        invariant
            vv == crate::text::views(v@),
            1 <= i <= v@.len(),
            best@ == least_of(vv.subrange(0, i as int)),
        decreases v@.len() - i,
    {
        assert(vv.subrange(0, i + 1).drop_last() =~= vv.subrange(0, i as int));
        assert(vv[i as int] == v@[i as int]@);
        if str_less(v[i].as_str(), best.as_str()) {
            best = v[i].clone();
        }
        i = i + 1;
    }
    assert(vv.subrange(0, vv.len() as int) =~= vv);
    best
}

pub open spec fn first_media_path(h: crate::streams::validation::BackendHandle) -> Option<Seq<char>> {
    match h {
        crate::streams::validation::BackendHandle::File { paths, .. } => if paths@.len() > 0 {
            Some(paths@[0]@)
        } else {
            None
        },
        _ => None,
    }
}

/// The key a manifest is stored under. A file stream: its alias, its id,
/// its hardware id, its first media path, else `media-file-unknown`.
/// Another stream: with no device keys its hardware id, its alias, else
/// `unknown`; else the first key with a `/`, the first with a `:`, else
/// the least key.
pub open spec fn camera_id(
    identity: crate::streams::validation::StreamIdentity,
    capture: crate::streams::validation::CaptureConfig,
) -> Seq<char> {
    let keys = crate::text::views(capture.device_keys@);
    if capture.backend == crate::streams::validation::BackendKind::File {
        if identity.alias is Some {
            identity.alias->0@
        } else if identity.id is Some {
            crate::streams::validation::uuid_text(identity.id->0)
        } else if identity.hardware_id is Some {
            identity.hardware_id->0@
        } else if first_media_path(capture.handle) is Some {
            first_media_path(capture.handle)->0
        } else {
            "media-file-unknown"@
        }
    } else if keys.len() == 0 {
        if identity.hardware_id is Some {
            identity.hardware_id->0@
        } else if identity.alias is Some {
            identity.alias->0@
        } else {
            "unknown"@
        }
    } else if first_holding(keys, '/', 0) < keys.len() {
        keys[first_holding(keys, '/', 0)]
    } else if first_holding(keys, ':', 0) < keys.len() {
        keys[first_holding(keys, ':', 0)]
    } else {
        least_of(keys)
    }
}

pub fn camera_id_for_manifest(
    identity: &crate::streams::validation::StreamIdentity,
    capture: &crate::streams::validation::CaptureConfig,
) -> (r: String)
    ensures
        r@ == camera_id(*identity, *capture),
{
    let ghost keys = crate::text::views(capture.device_keys@);
    if capture.backend == crate::streams::validation::BackendKind::File {
        if let Some(alias) = &identity.alias {
            return alias.clone();
        }
        if let Some(id) = identity.id {
            return crate::streams::validation::uuid_string(id);
        }
        if let Some(h) = &identity.hardware_id {
            return h.clone();
        }
        if let crate::streams::validation::BackendHandle::File { paths, .. } = &capture.handle {
            if paths.len() > 0 {
                return paths[0].clone();
            }
        }
        return owned("media-file-unknown");
    }
    if capture.device_keys.len() == 0 {
        assert(keys.len() == 0);
        if let Some(h) = &identity.hardware_id {
            return h.clone();
        }
        if let Some(a) = &identity.alias {
            return a.clone();
        }
        return owned("unknown");
    }
    proof {
        reveal_strlit("/");
        reveal_strlit(":");
    }
    let k = find_holding(&capture.device_keys, "/");
    if k < capture.device_keys.len() {
        assert(keys[k as int] == capture.device_keys@[k as int]@);
        return capture.device_keys[k].clone();
    }
    let j = find_holding(&capture.device_keys, ":");
    if j < capture.device_keys.len() {
        assert(keys[j as int] == capture.device_keys@[j as int]@);
        return capture.device_keys[j].clone();
    }
    least_string(&capture.device_keys)
}

// ---------------------------------------------------------------------------
// What edits never store.

/// A grid request, once its calibration-mode cells are emptied, shows the
/// calibration-mode pipeline in no cell.
pub proof fn law_requested_grid_never_shows_calibration_mode(slots: Seq<SlotView>, ids: ReservedPipelineIds)
    ensures
        ({
            let cleared = slots.map_values(|x: SlotView| without_calibration_cell(x, ids));
            forall|k: int| 0 <= k < cleared.len() ==> (#[trigger] cleared[k]).pipeline_id != Some(ids.calibration_mode)
        }),
{
}

/// The wires a request may set never touch the calibration-mode pipeline.
pub proof fn law_requested_wires_never_touch_calibration_mode(wires: Seq<WireView>, ids: ReservedPipelineIds)
    ensures
        crate::streams::pipeline_laws::wires_avoid(
            crate::streams::pipeline::wires_without(wires, ids.calibration_mode),
            ids.calibration_mode,
        ),
{
    crate::streams::pipeline_laws::lemma_wires_without(wires, ids.calibration_mode);
}

/// A cell whose pipeline needs a binding: any but RAW and calibration-mode.
pub open spec fn bindable_cell(x: SlotView, ids: ReservedPipelineIds) -> bool {
    x.pipeline_id is Some && x.pipeline_id->0 != ids.raw && x.pipeline_id->0 != ids.calibration_mode
}

/// Setting a grid binds every pipeline it shows (but RAW and
/// calibration-mode) and keeps every binding there was, in order.
pub proof fn law_layout_binds_shown_pipelines(bs: Seq<BindingView>, slots: Seq<SlotView>, ids: ReservedPipelineIds)
    ensures
        bindings_for_cells(bs, slots, ids).len() >= bs.len(),
        bindings_for_cells(bs, slots, ids).subrange(0, bs.len() as int) == bs,
        forall|k: int|
            0 <= k < slots.len() && bindable_cell(#[trigger] slots[k], ids) ==> has_binding(
                bindings_for_cells(bs, slots, ids),
                slots[k].pipeline_id->0,
            ),
    decreases slots.len(),
{
    if slots.len() > 0 {
        let prev = bindings_for_cells(bs, slots.drop_last(), ids);
        law_layout_binds_shown_pipelines(bs, slots.drop_last(), ids);
        let now = bindings_for_cells(bs, slots, ids);
        assert(now.subrange(0, prev.len() as int) == prev);
        assert(now.subrange(0, bs.len() as int) =~= prev.subrange(0, bs.len() as int));
        assert forall|k: int| 0 <= k < slots.len() && bindable_cell(#[trigger] slots[k], ids) implies has_binding(
            now,
            slots[k].pipeline_id->0,
        ) by {
            let p = slots[k].pipeline_id->0;
            if k < slots.len() - 1 {
                assert(slots.drop_last()[k] == slots[k]);
                assert(has_binding(prev, p));
                let j = choose|j: int| 0 <= j < prev.len() && (#[trigger] prev[j]).pipeline_id == p;
                assert(now[j] == prev[j]);
            } else {
                assert(slots.last() == slots[k]);
                if !has_binding(prev, p) {
                    assert(now[prev.len() as int].pipeline_id == p);
                }
            }
        }
    }
}

} // verus!
