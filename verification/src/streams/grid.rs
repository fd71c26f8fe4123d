//! The grid of pipeline outputs: the grid a stream with several pipelines
//! gets when it has none, the output shown for a pipeline, bringing a
//! pipeline into a single-view grid, and recovering from an output the
//! engine does not know.
use vstd::prelude::*;
use crate::streams::engine_reply::EngineErrorCode;
use crate::streams::manifest::{
    binding_views, opt_view, slot_views, BindingView, ConfigView, LayoutSlot, LayoutView,
    PipelineBinding, PipelineConfig, PipelineLayout, ReservedPipelineIds, SlotView,
};
use crate::streams::outputs::{clone_opt, norm_out, normalized_output_value};
use crate::streams::pipeline::{
    binding_output_from, normalize_pipeline_manifest, normalized_pipeline, origin_from,
};
use crate::text::{contains, contains_str, lower_seq, to_lower};

verus! {

/// The side of the grid that `t` outputs need: the least side from `s` on
/// whose square holds them, at most 6.
pub open spec fn grid_side_from(t: int, s: int) -> int
    decreases 6 - s,
{
    if s >= 6 || s * s >= t {
        s
    } else {
        grid_side_from(t, s + 1)
    }
}

pub open spec fn grid_side(t: int) -> int {
    grid_side_from(t, 1)
}

proof fn lemma_grid_side(t: int, s: int)
    requires
        1 <= s <= 6,
    ensures
        s <= grid_side_from(t, s) <= 6,
        t <= 36 ==> grid_side_from(t, s) * grid_side_from(t, s) >= t,
    decreases 6 - s,
{
    if s == 6 {
        assert(s * s == 36) by (nonlinear_arith)
            requires
                s == 6,
        ;
    } else if !(s * s >= t) {
        lemma_grid_side(t, s + 1);
    }
}

fn square(side: usize) -> (r: usize)
    requires
        side <= 6,
    ensures
        r == side * side,
        r <= 36,
{
    assert(side * side <= 36) by (nonlinear_arith)
        requires
            side <= 6,
    ;
    side * side
}

/// A stream with pipelines on, several bindings and no grid gets a square
/// grid of at most 6 by 6 cells showing the bindings in order, row by row.
pub open spec fn effective_layout(c: ConfigView) -> ConfigView {
    if c.layout is Some || !c.enabled || c.bindings.len() <= 1 {
        c
    } else {
        let t = if c.bindings.len() < 36 {
            c.bindings.len() as int
        } else {
            36
        };
        let side = grid_side(t);
        let n = if c.bindings.len() < side * side {
            c.bindings.len() as int
        } else {
            side * side
        };
        ConfigView {
            layout: Some(
                LayoutView {
                    rows: side as u8,
                    columns: side as u8,
                    slots: Seq::new(
                        n as nat,
                        |i: int|
                            SlotView {
                                row: (i / side) as u8,
                                column: (i % side) as u8,
                                pipeline_id: Some(c.bindings[i].pipeline_id),
                                output_key: None,
                            },
                    ),
                },
            ),
            ..c
        }
    }
}

pub fn apply_effective_pipeline_layout(cfg: &mut PipelineConfig)
    ensures
        final(cfg)@ == effective_layout(old(cfg)@),
{
    proof {
        assert(binding_views(cfg.pipelines@).len() == cfg.pipelines@.len());
    }
    if cfg.pipeline_layout.is_some() || !cfg.pipeline_enabled || cfg.pipelines.len() <= 1 {
        return;
    }
    let len = cfg.pipelines.len();
    let t: usize = if len < 36 {
        len
    } else {
        36
    };
    let mut side: usize = 1;
    proof {
        lemma_grid_side(t as int, 1);
    }
    while !(side >= 6 || square(side) >= t)
        invariant
            1 <= side <= 6,
            t <= 36,
            grid_side(t as int) == grid_side_from(t as int, side as int),
        decreases 6 - side,
    {
        side = side + 1;
    }
    proof {
        lemma_grid_side(t as int, side as int);
    }
    let sq = square(side);
    let n: usize = if len < sq {
        len
    } else {
        sq
    };
    let ghost bv = binding_views(cfg.pipelines@);
    let mut slots: Vec<LayoutSlot> = Vec::new();
    let mut i: usize = 0;
    while i < n
        invariant
            bv == binding_views(cfg.pipelines@),
            1 <= side <= 6,
            n <= len,
            len == cfg.pipelines@.len(),
            n <= side * side,
            i <= n,
            slots@.len() == i,
            forall|k: int|
                0 <= k < i ==> (#[trigger] slots@[k])@ == (SlotView {
                    row: (k / side as int) as u8,
                    column: (k % side as int) as u8,
                    pipeline_id: Some(bv[k].pipeline_id),
                    output_key: None,
                }),
        decreases n - i,
    {
        assert(bv[i as int] == cfg.pipelines@[i as int]@);
        assert(i / side < 6) by (nonlinear_arith)
            requires
                i < side * side,
                1 <= side <= 6,
        ;
        let row = (i / side) as u8;
        let col = (i % side) as u8;
        slots.push(LayoutSlot { row, column: col, pipeline_id: Some(cfg.pipelines[i].pipeline_id), output_key: None });
        i = i + 1;
    }
    let ghost before = cfg@;
    let layout = PipelineLayout { rows: side as u8, columns: side as u8, slots };
    assert(layout@.slots =~= effective_layout(before).layout->0.slots);
    cfg.pipeline_layout = Some(layout);
    assert(cfg@ =~= effective_layout(before));
}

// ---------------------------------------------------------------------------
// The output shown for a pipeline.

/// The first slot from `i` on that shows `id`, preferring none.
pub open spec fn slot_of_from(s: Seq<SlotView>, id: u128, origin_only: bool, i: int) -> int
    decreases s.len() - i,
{
    if i < 0 || i >= s.len() {
        s.len() as int
    } else if s[i].pipeline_id == Some(id) && (!origin_only || (s[i].row == 0 && s[i].column == 0)) {
        i
    } else {
        slot_of_from(s, id, origin_only, i + 1)
    }
}

/// The output a pipeline shows: its grid cell's (the top-left one first),
/// else the active output when it is the active pipeline, else its
/// binding's default.
pub open spec fn preferred_output(c: ConfigView, id: u128) -> Option<Seq<char>> {
    let from_slot = match c.layout {
        Some(l) => {
            let k0 = slot_of_from(l.slots, id, true, 0);
            let k = if k0 < l.slots.len() {
                k0
            } else {
                slot_of_from(l.slots, id, false, 0)
            };
            if k < l.slots.len() {
                norm_out(l.slots[k].output_key)
            } else {
                None
            }
        },
        None => None,
    };
    if from_slot is Some {
        from_slot
    } else if c.active_id == Some(id) && norm_out(c.active_output) is Some {
        norm_out(c.active_output)
    } else {
        binding_output_from(c.bindings, id, 0)
    }
}

fn find_slot_of(v: &Vec<LayoutSlot>, id: u128, origin_only: bool) -> (r: usize)
    ensures
        r == slot_of_from(slot_views(v@), id, origin_only, 0),
{
    let ghost sv = slot_views(v@);
    let mut i: usize = 0;
    while i < v.len()
        invariant
            sv == slot_views(v@),
            i <= v@.len(),
            slot_of_from(sv, id, origin_only, 0) == slot_of_from(sv, id, origin_only, i as int),
        decreases v@.len() - i,
    {
        assert(sv[i as int] == v@[i as int]@);
        if v[i].pipeline_id == Some(id) && (!origin_only || (v[i].row == 0 && v[i].column == 0)) {
            return i;
        }
        i = i + 1;
    }
    i
}

fn binding_default_output(bs: &Vec<PipelineBinding>, id: u128) -> (r: Option<String>)
    ensures
        opt_view(r) == binding_output_from(binding_views(bs@), id, 0),
{
    let ghost bv = binding_views(bs@);
    let mut i: usize = 0;
    while i < bs.len()
        invariant
            bv == binding_views(bs@),
            i <= bs@.len(),
            binding_output_from(bv, id, 0) == binding_output_from(bv, id, i as int),
        decreases bs@.len() - i,
    {
        assert(bv[i as int] == bs@[i as int]@);
        if bs[i].pipeline_id == id {
            return normalized_output_value(&bs[i].pipeline_output);
        }
        i = i + 1;
    }
    None
}

pub fn preferred_pipeline_output(cfg: &PipelineConfig, id: u128) -> (r: Option<String>)
    ensures
        opt_view(r) == preferred_output(cfg@, id),
{
    match &cfg.pipeline_layout {
        Some(l) => {
            let k0 = find_slot_of(&l.slots, id, true);
            let k = if k0 < l.slots.len() {
                k0
            } else {
                find_slot_of(&l.slots, id, false)
            };
            if k < l.slots.len() {
                assert(slot_views(l.slots@)[k as int] == l.slots@[k as int]@);
                let o = normalized_output_value(&l.slots[k].output_key);
                if o.is_some() {
                    return o;
                }
            }
        },
        None => {},
    }
    if cfg.active_pipeline_id == Some(id) {
        let o = normalized_output_value(&cfg.active_pipeline_output);
        if o.is_some() {
            return o;
        }
    }
    binding_default_output(&cfg.pipelines, id)
}

// ---------------------------------------------------------------------------
// Bringing a pipeline into view.

/// Makes a pipeline the visible one when the stream shows RAW or nothing:
/// in a single-view grid its cell is pointed at the pipeline (a cell is
/// added to an empty grid); the pipeline becomes active with `output`, or
/// else the output it prefers. RAW and calibration-mode are never promoted.
pub open spec fn promoted(c: ConfigView, id: u128, output: Option<Seq<char>>, ids: ReservedPipelineIds) -> ConfigView {
    let resolved = if norm_out(output) is Some {
        norm_out(output)
    } else {
        preferred_output(c, id)
    };
    let active_is_raw = c.active_id == Some(ids.raw);
    let activate = ConfigView { active_id: Some(id), active_output: resolved, ..c };
    if id == ids.raw || id == ids.calibration_mode {
        c
    } else {
        match c.layout {
            None => if active_is_raw {
                activate
            } else {
                c
            },
            Some(l) => if l.rows != 1 || l.columns != 1 {
                if active_is_raw {
                    activate
                } else {
                    c
                }
            } else {
                let k0 = origin_from(l.slots, 0);
                let k = if k0 < l.slots.len() {
                    k0
                } else {
                    0
                };
                let slot_pid = if k < l.slots.len() {
                    l.slots[k].pipeline_id
                } else {
                    None
                };
                if !(active_is_raw || slot_pid is None || slot_pid == Some(ids.raw)) {
                    c
                } else {
                    let slots = if k < l.slots.len() {
                        l.slots.update(
                            k,
                            SlotView { row: l.slots[k].row, column: l.slots[k].column, pipeline_id: Some(id), output_key: resolved },
                        )
                    } else {
                        l.slots.push(SlotView { row: 0, column: 0, pipeline_id: Some(id), output_key: resolved })
                    };
                    ConfigView {
                        layout: Some(LayoutView { rows: l.rows, columns: l.columns, slots }),
                        ..activate
                    }
                }
            },
        }
    }
}

pub fn promote_single_view_pipeline_selection(
    cfg: &mut PipelineConfig,
    id: u128,
    output: &Option<String>,
    ids: &ReservedPipelineIds,
)
    ensures
        final(cfg)@ == promoted(old(cfg)@, id, opt_view(*output), *ids),
{
    if id == ids.raw || id == ids.calibration_mode {
        return;
    }
    let resolved = match normalized_output_value(output) {
        Some(o) => Some(o),
        None => preferred_pipeline_output(cfg, id),
    };
    let active_is_raw = cfg.active_pipeline_id == Some(ids.raw);
    let (rows, columns, mut slots) = match &cfg.pipeline_layout {
        None => {
            if active_is_raw {
                cfg.active_pipeline_id = Some(id);
                cfg.active_pipeline_output = resolved;
            }
            return;
        },
        Some(l) => (l.rows, l.columns, crate::streams::lifecycle::clone_slots(&l.slots)),
    };
    if rows != 1 || columns != 1 {
        if active_is_raw {
            cfg.active_pipeline_id = Some(id);
            cfg.active_pipeline_output = resolved;
        }
        return;
    }
    let ghost sv = slot_views(slots@);
    let k0 = crate::streams::pipeline::find_origin_slot(&slots);
    let k = if k0 < slots.len() {
        k0
    } else {
        0
    };
    let slot_pid = if k < slots.len() {
        assert(sv[k as int] == slots@[k as int]@);
        slots[k].pipeline_id
    } else {
        None
    };
    if !(active_is_raw || slot_pid.is_none() || slot_pid == Some(ids.raw)) {
        return;
    }
    if k < slots.len() {
        let x = LayoutSlot { row: slots[k].row, column: slots[k].column, pipeline_id: Some(id), output_key: clone_opt(&resolved) };
        let ghost xv = x@;
        slots.set(k, x);
        assert(slot_views(slots@) =~= sv.update(k as int, xv));
    } else {
        let x = LayoutSlot { row: 0, column: 0, pipeline_id: Some(id), output_key: clone_opt(&resolved) };
        let ghost xv = x@;
        slots.push(x);
        assert(slot_views(slots@) =~= sv.push(xv));
    }
    cfg.pipeline_layout = Some(PipelineLayout { rows, columns, slots });
    cfg.active_pipeline_id = Some(id);
    cfg.active_pipeline_output = resolved;
    assert(cfg@ =~= promoted(old(cfg)@, id, opt_view(*output), *ids));
}

// ---------------------------------------------------------------------------
// An output the engine does not know.

pub open spec fn outputs_cleared(c: ConfigView) -> ConfigView {
    ConfigView {
        active_output: None,
        bindings: c.bindings.map_values(
            |b: BindingView| BindingView { pipeline_id: b.pipeline_id, pipeline_output: None, has_inline_graph: b.has_inline_graph },
        ),
        layout: match c.layout {
            Some(l) => Some(
                LayoutView {
                    rows: l.rows,
                    columns: l.columns,
                    slots: l.slots.map_values(
                        |x: SlotView| SlotView { row: x.row, column: x.column, pipeline_id: x.pipeline_id, output_key: None },
                    ),
                },
            ),
            None => None,
        },
        ..c
    }
}

pub open spec fn any_output_set(c: ConfigView) -> bool {
    ||| c.active_output is Some
    ||| exists|i: int| 0 <= i < c.bindings.len() && (#[trigger] c.bindings[i]).pipeline_output is Some
    ||| (c.layout matches Some(l) && exists|i: int| 0 <= i < l.slots.len() && (#[trigger] l.slots[i]).output_key is Some)
}

/// The engine names a missing selected output.
pub open spec fn missing_output_error(code: EngineErrorCode, reason: Seq<char>) -> bool {
    code == EngineErrorCode::InvalidState && contains(lower_seq(reason), "selected output"@) && contains(
        lower_seq(reason),
        "not found"@,
    )
}

/// After the engine refused a start because a selected output does not
/// exist, every output selection is dropped and the manifest normalized
/// again; tells whether anything was dropped.
pub fn recover_from_missing_selected_output(
    cfg: &mut PipelineConfig,
    code: EngineErrorCode,
    reason: &str,
    ids: &ReservedPipelineIds,
) -> (r: bool)
    ensures
        r == (missing_output_error(code, reason@) && any_output_set(old(cfg)@)),
        r ==> final(cfg)@ == effective_layout(normalized_pipeline(outputs_cleared(old(cfg)@), *ids)),
        !r ==> final(cfg)@ == old(cfg)@,
{
    if code != EngineErrorCode::InvalidState {
        return false;
    }
    let lowered = to_lower(reason);
    if !(contains_str(lowered.as_str(), "selected output") && contains_str(lowered.as_str(), "not found")) {
        return false;
    }
    let ghost c0 = cfg@;
    let mut changed = cfg.active_pipeline_output.is_some();
    let mut bindings: Vec<PipelineBinding> = Vec::new();
    let mut i: usize = 0;
    while i < cfg.pipelines.len()
        invariant
            c0.bindings == binding_views(cfg.pipelines@),
            i <= cfg.pipelines@.len(),
            bindings@.len() == i,
            forall|k: int| 0 <= k < i ==> (#[trigger] bindings@[k])@ == (BindingView {
                pipeline_id: c0.bindings[k].pipeline_id,
                pipeline_output: None,
                has_inline_graph: c0.bindings[k].has_inline_graph,
            }),
            changed == (c0.active_output is Some || exists|k: int| 0 <= k < i && (#[trigger] c0.bindings[k]).pipeline_output is Some),
        decreases cfg.pipelines@.len() - i,
    {
        let b = &cfg.pipelines[i];
        assert(c0.bindings[i as int] == b@);
        if b.pipeline_output.is_some() {
            changed = true;
        }
        bindings.push(PipelineBinding { pipeline_id: b.pipeline_id, pipeline_output: None, has_inline_graph: b.has_inline_graph });
        i = i + 1;
    }
    let ghost bchanged = changed;
    let mut slot_changed = false;
    assert(crate::streams::manifest::layout_view(cfg.pipeline_layout) == c0.layout);
    let layout = match &cfg.pipeline_layout {
        Some(l) => {
            let ghost sv = slot_views(l.slots@);
            let mut slots: Vec<LayoutSlot> = Vec::new();
            let mut j: usize = 0;
            while j < l.slots.len()
                invariant
                    sv == slot_views(l.slots@),
                    j <= l.slots@.len(),
                    slots@.len() == j,
                    forall|k: int| 0 <= k < j ==> (#[trigger] slots@[k])@ == (SlotView {
                        row: sv[k].row,
                        column: sv[k].column,
                        pipeline_id: sv[k].pipeline_id,
                        output_key: None,
                    }),
                    slot_changed == exists|k: int| 0 <= k < j && (#[trigger] sv[k]).output_key is Some,
                decreases l.slots@.len() - j,
            {
                let x = &l.slots[j];
                assert(sv[j as int] == x@);
                if x.output_key.is_some() {
                    slot_changed = true;
                }
                slots.push(LayoutSlot { row: x.row, column: x.column, pipeline_id: x.pipeline_id, output_key: None });
                j = j + 1;
            }
            let nl = PipelineLayout { rows: l.rows, columns: l.columns, slots };
            assert(c0.layout == Some(l@));
            assert(slot_views(nl.slots@) =~= outputs_cleared(c0).layout->0.slots);
            assert(nl@ =~= outputs_cleared(c0).layout->0);
            Some(nl)
        },
        None => None,
    };
    let changed_all = changed || slot_changed;
    assert(changed_all == any_output_set(c0));
    if !changed_all {
        return false;
    }
    assert(binding_views(bindings@) =~= outputs_cleared(c0).bindings);
    cfg.active_pipeline_output = None;
    cfg.pipelines = bindings;
    cfg.pipeline_layout = layout;
    assert(cfg@ =~= outputs_cleared(c0));
    normalize_pipeline_manifest(cfg, ids);
    apply_effective_pipeline_layout(cfg);
    true
}

} // verus!
