//! Normalization of the pipeline part of a manifest: the reserved
//! calibration-mode pipeline never stays in a user manifest, RAW outputs
//! take their canonical names, and the bindings are the one source of truth
//! that the layout, the wires and the active selection must agree with.
use vstd::prelude::*;
use crate::streams::manifest::{
    binding_views, opt_view, slot_views, wire_views, BindingView, ConfigView, EndpointView,
    LayoutSlot, LayoutView, PipelineBinding, PipelineConfig, PipelineLayout, PipelineWire,
    ReservedPipelineIds, SlotView, WireEndpoint, WireView,
};
use crate::streams::outputs::{canon_raw, canonicalize_raw_output_value, clone_opt, norm_out};

verus! {

// ---------------------------------------------------------------------------
// Removing the reserved calibration-mode pipeline.

/// The bindings whose pipeline is not `id`, in order.
pub open spec fn bindings_without(s: Seq<BindingView>, id: u128) -> Seq<BindingView>
    decreases s.len(),
{
    if s.len() == 0 {
        Seq::empty()
    } else if s.last().pipeline_id == id {
        bindings_without(s.drop_last(), id)
    } else {
        bindings_without(s.drop_last(), id).push(s.last())
    }
}

/// The wires that touch neither end of `id`, in order.
pub open spec fn wires_without(s: Seq<WireView>, id: u128) -> Seq<WireView>
    decreases s.len(),
{
    if s.len() == 0 {
        Seq::empty()
    } else if s.last().from.pipeline_id == id || s.last().to.pipeline_id == id {
        wires_without(s.drop_last(), id)
    } else {
        wires_without(s.drop_last(), id).push(s.last())
    }
}

pub open spec fn cleared(x: SlotView) -> SlotView {
    SlotView { row: x.row, column: x.column, pipeline_id: None, output_key: None }
}

/// Slots that show `id` are emptied; the others stay.
pub open spec fn slots_clearing(s: Seq<SlotView>, id: u128) -> Seq<SlotView> {
    s.map_values(|x: SlotView| if x.pipeline_id == Some(id) { cleared(x) } else { x })
}

pub open spec fn with_slots(l: LayoutView, slots: Seq<SlotView>) -> LayoutView {
    LayoutView { rows: l.rows, columns: l.columns, slots }
}

pub open spec fn slots_show(s: Seq<SlotView>, id: u128) -> bool {
    exists|i: int| 0 <= i < s.len() && s[i].pipeline_id == Some(id)
}

pub open spec fn slots_show_any(s: Seq<SlotView>) -> bool {
    exists|i: int| 0 <= i < s.len() && (#[trigger] s[i]).pipeline_id is Some
}

pub open spec fn layout_shows_any(l: Option<LayoutView>) -> bool {
    l matches Some(l) && slots_show_any(l.slots)
}

/// The configuration with every trace of the calibration-mode pipeline
/// `cal` removed. When that removal leaves no pipeline configuration at all,
/// pipelines are switched off.
pub open spec fn stripped(c: ConfigView, cal: u128) -> ConfigView {
    let bindings = bindings_without(c.bindings, cal);
    let active_hit = c.active_id == Some(cal);
    let layout = match c.layout {
        Some(l) => Some(with_slots(l, slots_clearing(l.slots, cal))),
        None => None,
    };
    let wires = wires_without(c.wires, cal);
    let slot_hit = c.layout matches Some(l) && slots_show(l.slots, cal);
    let removed = bindings.len() != c.bindings.len() || active_hit || slot_hit || wires.len()
        != c.wires.len();
    let active_id = if active_hit {
        None
    } else {
        c.active_id
    };
    let has_any = bindings.len() > 0 || layout_shows_any(layout) || active_id is Some || wires.len()
        > 0;
    ConfigView {
        enabled: if removed && !has_any {
            false
        } else {
            c.enabled
        },
        bindings,
        active_id,
        active_output: if active_hit {
            None
        } else {
            c.active_output
        },
        layout,
        wires,
    }
}

fn clone_binding(b: &PipelineBinding) -> (r: PipelineBinding)
    ensures
        r == *b,
{
    PipelineBinding {
        pipeline_id: b.pipeline_id,
        pipeline_output: clone_opt(&b.pipeline_output),
        has_inline_graph: b.has_inline_graph,
    }
}

fn clone_endpoint(e: &WireEndpoint) -> (r: WireEndpoint)
    ensures
        r == *e,
{
    WireEndpoint {
        pipeline_id: e.pipeline_id,
        output_key: clone_opt(&e.output_key),
        port: clone_opt(&e.port),
    }
}

fn clone_wire(w: &PipelineWire) -> (r: PipelineWire)
    ensures
        r == *w,
{
    PipelineWire { from: clone_endpoint(&w.from), to: clone_endpoint(&w.to) }
}

fn clone_slot(s: &LayoutSlot) -> (r: LayoutSlot)
    ensures
        r == *s,
{
    LayoutSlot {
        row: s.row,
        column: s.column,
        pipeline_id: s.pipeline_id,
        output_key: clone_opt(&s.output_key),
    }
}

fn keep_bindings_without(v: &Vec<PipelineBinding>, id: u128) -> (r: Vec<PipelineBinding>)
    ensures
        binding_views(r@) == bindings_without(binding_views(v@), id),
{
    let mut out: Vec<PipelineBinding> = Vec::new();
    let mut i: usize = 0;
    while i < v.len()
        invariant
            i <= v@.len(),
            binding_views(out@) == bindings_without(binding_views(v@.subrange(0, i as int)), id),
        decreases v@.len() - i,
    {
        let ghost prev = binding_views(v@.subrange(0, i as int));
        let ghost next = binding_views(v@.subrange(0, i + 1));
        assert(next.drop_last() =~= prev);
        assert(next.last() == v@[i as int]@);
        if v[i].pipeline_id != id {
            out.push(clone_binding(&v[i]));
            assert(binding_views(out@) =~= bindings_without(prev, id).push(v@[i as int]@));
        }
        i = i + 1;
    }
    assert(v@.subrange(0, v@.len() as int) =~= v@);
    out
}

pub fn keep_wires_without(v: &Vec<PipelineWire>, id: u128) -> (r: Vec<PipelineWire>)
    ensures
        wire_views(r@) == wires_without(wire_views(v@), id),
{
    let mut out: Vec<PipelineWire> = Vec::new();
    let mut i: usize = 0;
    while i < v.len()
        invariant
            i <= v@.len(),
            wire_views(out@) == wires_without(wire_views(v@.subrange(0, i as int)), id),
        decreases v@.len() - i,
    {
        let ghost prev = wire_views(v@.subrange(0, i as int));
        let ghost next = wire_views(v@.subrange(0, i + 1));
        assert(next.drop_last() =~= prev);
        assert(next.last() == v@[i as int]@);
        if v[i].from.pipeline_id != id && v[i].to.pipeline_id != id {
            out.push(clone_wire(&v[i]));
            assert(wire_views(out@) =~= wires_without(prev, id).push(v@[i as int]@));
        }
        i = i + 1;
    }
    assert(v@.subrange(0, v@.len() as int) =~= v@);
    out
}

fn clear_slots_showing(v: &Vec<LayoutSlot>, id: u128) -> (r: (Vec<LayoutSlot>, bool))
    ensures
        slot_views(r.0@) == slots_clearing(slot_views(v@), id),
        r.1 == slots_show(slot_views(v@), id),
{
    let mut out: Vec<LayoutSlot> = Vec::new();
    let mut hit = false;
    let mut i: usize = 0;
    while i < v.len()
        invariant
            i <= v@.len(),
            slot_views(out@) == slots_clearing(slot_views(v@.subrange(0, i as int)), id),
            hit == slots_show(slot_views(v@.subrange(0, i as int)), id),
        decreases v@.len() - i,
    {
        let ghost prev = slot_views(v@.subrange(0, i as int));
        let ghost next = slot_views(v@.subrange(0, i + 1));
        assert(next.drop_last() =~= prev);
        assert(next.last() == v@[i as int]@);
        assert(slots_clearing(prev, id).len() == prev.len());
        assert(slot_views(out@).len() == out@.len());
        assert(out@.len() == prev.len());
        if v[i].pipeline_id == Some(id) {
            out.push(LayoutSlot { row: v[i].row, column: v[i].column, pipeline_id: None, output_key: None });
            hit = true;
            assert(next[i as int].pipeline_id == Some(id));
        } else {
            out.push(clone_slot(&v[i]));
            if hit {
                let ghost w = choose|w: int| 0 <= w < prev.len() && prev[w].pipeline_id == Some(id);
                assert(next[w] == prev[w]);
            } else {
                assert forall|w: int| 0 <= w < next.len() implies next[w].pipeline_id != Some(id) by {
                    if w < prev.len() {
                        assert(next[w] == prev[w]);
                    }
                }
            }
        }
        assert forall|k: int| 0 <= k < i implies next[k] == prev[k] by {}
        assert(slot_views(out@).len() == next.len());
        assert forall|k: int| 0 <= k < next.len() implies slot_views(out@)[k] == slots_clearing(next, id)[k] by {
            if k < i {
                assert(slot_views(out@)[k] == slots_clearing(prev, id)[k]);
            }
        }
        assert(slot_views(out@) =~= slots_clearing(next, id));
        i = i + 1;
    }
    assert(v@.subrange(0, v@.len() as int) =~= v@);
    (out, hit)
}

fn any_slot_shows(v: &Vec<LayoutSlot>) -> (r: bool)
    ensures
        r == slots_show_any(slot_views(v@)),
{
    let mut i: usize = 0;
    while i < v.len()
        invariant
            i <= v@.len(),
            forall|j: int| 0 <= j < i ==> (#[trigger] v@[j]).pipeline_id is None,
        decreases v@.len() - i,
    {
        if v[i].pipeline_id.is_some() {
            assert(slot_views(v@)[i as int].pipeline_id is Some);
            return true;
        }
        i = i + 1;
    }
    assert forall|j: int| 0 <= j < slot_views(v@).len() implies (#[trigger] slot_views(v@)[j]).pipeline_id is None by {
        assert(v@[j].pipeline_id is None);
    }
    false
}

fn layout_shows(l: &Option<PipelineLayout>) -> (r: bool)
    ensures
        r == layout_shows_any(crate::streams::manifest::layout_view(*l)),
{
    match l {
        Some(l) => any_slot_shows(&l.slots),
        None => false,
    }
}

/// Removes the reserved calibration-mode pipeline from bindings, active
/// selection, layout and wires; switches pipelines off when that leaves no
/// pipeline configuration.
pub fn strip_reserved_pipeline_ids(cfg: &mut PipelineConfig, ids: &ReservedPipelineIds)
    ensures
        final(cfg)@ == stripped(old(cfg)@, ids.calibration_mode),
{
    let cal = ids.calibration_mode;
    let bindings = keep_bindings_without(&cfg.pipelines, cal);
    let removed_bindings = bindings.len() != cfg.pipelines.len();
    let active_hit = match cfg.active_pipeline_id {
        Some(a) => a == cal,
        None => false,
    };
    let (layout, slot_hit) = match &cfg.pipeline_layout {
        Some(l) => {
            let (slots, hit) = clear_slots_showing(&l.slots, cal);
            (Some(PipelineLayout { rows: l.rows, columns: l.columns, slots }), hit)
        },
        None => (None, false),
    };
    let wires = keep_wires_without(&cfg.pipeline_wires, cal);
    let removed_wires = wires.len() != cfg.pipeline_wires.len();
    proof {
        assert(binding_views(bindings@).len() == bindings@.len());
        assert(binding_views(cfg.pipelines@).len() == cfg.pipelines@.len());
        assert(wire_views(wires@).len() == wires@.len());
        assert(wire_views(cfg.pipeline_wires@).len() == cfg.pipeline_wires@.len());
    }
    let removed = removed_bindings || active_hit || slot_hit || removed_wires;
    if active_hit {
        cfg.active_pipeline_id = None;
        cfg.active_pipeline_output = None;
    }
    cfg.pipelines = bindings;
    cfg.pipeline_layout = layout;
    cfg.pipeline_wires = wires;
    if removed {
        let has_any = cfg.pipelines.len() > 0 || layout_shows(&cfg.pipeline_layout)
            || cfg.active_pipeline_id.is_some() || cfg.pipeline_wires.len() > 0;
        if !has_any {
            cfg.pipeline_enabled = false;
        }
    }
    assert(cfg@ =~= stripped(old(cfg)@, cal));
}

// ---------------------------------------------------------------------------
// Canonical names for the outputs of the RAW pipeline.

pub open spec fn canon_binding(b: BindingView, raw: u128) -> BindingView {
    if b.pipeline_id == raw {
        BindingView {
            pipeline_id: b.pipeline_id,
            pipeline_output: canon_raw(b.pipeline_output),
            has_inline_graph: b.has_inline_graph,
        }
    } else {
        b
    }
}

pub open spec fn canon_slot(s: SlotView, raw: u128) -> SlotView {
    if s.pipeline_id == Some(raw) {
        SlotView {
            row: s.row,
            column: s.column,
            pipeline_id: s.pipeline_id,
            output_key: canon_raw(s.output_key),
        }
    } else {
        s
    }
}

pub open spec fn canon_wire(w: WireView, raw: u128) -> WireView {
    if w.from.pipeline_id == raw {
        WireView {
            from: EndpointView {
                pipeline_id: w.from.pipeline_id,
                output_key: canon_raw(w.from.output_key),
                port: w.from.port,
            },
            to: w.to,
        }
    } else {
        w
    }
}

/// Every selector of a RAW pipeline output takes its canonical name.
pub open spec fn canonicalized(c: ConfigView, raw: u128) -> ConfigView {
    ConfigView {
        enabled: c.enabled,
        bindings: c.bindings.map_values(|b: BindingView| canon_binding(b, raw)),
        active_id: c.active_id,
        active_output: if c.active_id == Some(raw) {
            canon_raw(c.active_output)
        } else {
            c.active_output
        },
        layout: match c.layout {
            Some(l) => Some(with_slots(l, l.slots.map_values(|x: SlotView| canon_slot(x, raw)))),
            None => None,
        },
        wires: c.wires.map_values(|w: WireView| canon_wire(w, raw)),
    }
}

fn canon_bindings(v: &Vec<PipelineBinding>, raw: u128) -> (r: Vec<PipelineBinding>)
    ensures
        binding_views(r@) == binding_views(v@).map_values(|b: BindingView| canon_binding(b, raw)),
{
    let mut out: Vec<PipelineBinding> = Vec::new();
    let mut i: usize = 0;
    while i < v.len()
        invariant
            i <= v@.len(),
            out@.len() == i,
            forall|k: int| 0 <= k < i ==> (#[trigger] out@[k])@ == canon_binding(v@[k]@, raw),
        decreases v@.len() - i,
    {
        let b = &v[i];
        let output = if b.pipeline_id == raw {
            canonicalize_raw_output_value(&b.pipeline_output)
        } else {
            clone_opt(&b.pipeline_output)
        };
        out.push(PipelineBinding { pipeline_id: b.pipeline_id, pipeline_output: output, has_inline_graph: b.has_inline_graph });
        i = i + 1;
    }
    assert(binding_views(out@) =~= binding_views(v@).map_values(|b: BindingView| canon_binding(b, raw)));
    out
}

fn canon_slots(v: &Vec<LayoutSlot>, raw: u128) -> (r: Vec<LayoutSlot>)
    ensures
        slot_views(r@) == slot_views(v@).map_values(|x: SlotView| canon_slot(x, raw)),
{
    let mut out: Vec<LayoutSlot> = Vec::new();
    let mut i: usize = 0;
    while i < v.len()
        invariant
            i <= v@.len(),
            out@.len() == i,
            forall|k: int| 0 <= k < i ==> (#[trigger] out@[k])@ == canon_slot(v@[k]@, raw),
        decreases v@.len() - i,
    {
        let x = &v[i];
        let key = if x.pipeline_id == Some(raw) {
            canonicalize_raw_output_value(&x.output_key)
        } else {
            clone_opt(&x.output_key)
        };
        out.push(LayoutSlot { row: x.row, column: x.column, pipeline_id: x.pipeline_id, output_key: key });
        i = i + 1;
    }
    assert(slot_views(out@) =~= slot_views(v@).map_values(|x: SlotView| canon_slot(x, raw)));
    out
}

fn canon_wires(v: &Vec<PipelineWire>, raw: u128) -> (r: Vec<PipelineWire>)
    ensures
        wire_views(r@) == wire_views(v@).map_values(|w: WireView| canon_wire(w, raw)),
{
    let mut out: Vec<PipelineWire> = Vec::new();
    let mut i: usize = 0;
    while i < v.len()
        invariant
            i <= v@.len(),
            out@.len() == i,
            forall|k: int| 0 <= k < i ==> (#[trigger] out@[k])@ == canon_wire(v@[k]@, raw),
        decreases v@.len() - i,
    {
        let w = &v[i];
        let key = if w.from.pipeline_id == raw {
            canonicalize_raw_output_value(&w.from.output_key)
        } else {
            clone_opt(&w.from.output_key)
        };
        let from = WireEndpoint { pipeline_id: w.from.pipeline_id, output_key: key, port: clone_opt(&w.from.port) };
        out.push(PipelineWire { from, to: clone_endpoint(&w.to) });
        i = i + 1;
    }
    assert(wire_views(out@) =~= wire_views(v@).map_values(|w: WireView| canon_wire(w, raw)));
    out
}

/// Gives every RAW pipeline output selector its canonical name.
pub fn canonicalize_raw_output_aliases(cfg: &mut PipelineConfig, raw: u128)
    ensures
        final(cfg)@ == canonicalized(old(cfg)@, raw),
{
    if cfg.active_pipeline_id == Some(raw) {
        cfg.active_pipeline_output = canonicalize_raw_output_value(&cfg.active_pipeline_output);
    }
    cfg.pipelines = canon_bindings(&cfg.pipelines, raw);
    let layout = match &cfg.pipeline_layout {
        Some(l) => Some(PipelineLayout { rows: l.rows, columns: l.columns, slots: canon_slots(&l.slots, raw) }),
        None => None,
    };
    cfg.pipeline_layout = layout;
    cfg.pipeline_wires = canon_wires(&cfg.pipeline_wires, raw);
    assert(cfg@ =~= canonicalized(old(cfg)@, raw));
}

// ---------------------------------------------------------------------------
// Dropping references to pipelines that are not bound.

/// A pipeline is known when it is bound, or when it is the RAW pipeline.
pub open spec fn known(bs: Seq<BindingView>, raw: u128, id: u128) -> bool {
    id == raw || exists|j: int| 0 <= j < bs.len() && (#[trigger] bs[j]).pipeline_id == id
}

pub open spec fn slot_dangling(x: SlotView, bs: Seq<BindingView>, raw: u128) -> bool {
    x.pipeline_id matches Some(p) && !known(bs, raw, p)
}

/// The wires whose two ends are known, in order.
pub open spec fn wires_known(s: Seq<WireView>, bs: Seq<BindingView>, raw: u128) -> Seq<WireView>
    decreases s.len(),
{
    if s.len() == 0 {
        Seq::empty()
    } else if known(bs, raw, s.last().from.pipeline_id) && known(bs, raw, s.last().to.pipeline_id) {
        wires_known(s.drop_last(), bs, raw).push(s.last())
    } else {
        wires_known(s.drop_last(), bs, raw)
    }
}

pub open spec fn active_dangling(c: ConfigView, raw: u128) -> bool {
    c.active_id matches Some(a) && !known(c.bindings, raw, a)
}

/// The configuration without references to unknown pipelines: such an
/// active selection is dropped, such slots are emptied and such wires go.
pub open spec fn pruned(c: ConfigView, raw: u128) -> ConfigView {
    let drop_active = active_dangling(c, raw);
    ConfigView {
        enabled: c.enabled,
        bindings: c.bindings,
        active_id: if drop_active {
            None
        } else {
            c.active_id
        },
        active_output: if drop_active {
            None
        } else {
            c.active_output
        },
        layout: match c.layout {
            Some(l) => Some(
                with_slots(
                    l,
                    l.slots.map_values(
                        |x: SlotView| if slot_dangling(x, c.bindings, raw) {
                            cleared(x)
                        } else {
                            x
                        },
                    ),
                ),
            ),
            None => None,
        },
        wires: wires_known(c.wires, c.bindings, raw),
    }
}

/// Some slot of the layout shows an unknown pipeline.
pub open spec fn prunes_slots(c: ConfigView, raw: u128) -> bool {
    c.layout matches Some(l) && exists|i: int|
        0 <= i < l.slots.len() && slot_dangling(#[trigger] l.slots[i], c.bindings, raw)
}

fn is_known(bs: &Vec<PipelineBinding>, raw: u128, id: u128) -> (r: bool)
    ensures
        r == known(binding_views(bs@), raw, id),
{
    if id == raw {
        return true;
    }
    let mut i: usize = 0;
    while i < bs.len()
        invariant
            i <= bs@.len(),
            forall|j: int| 0 <= j < i ==> (#[trigger] bs@[j]).pipeline_id != id,
        decreases bs@.len() - i,
    {
        if bs[i].pipeline_id == id {
            assert(binding_views(bs@)[i as int].pipeline_id == id);
            return true;
        }
        i = i + 1;
    }
    assert forall|j: int| 0 <= j < binding_views(bs@).len() implies (#[trigger] binding_views(bs@)[j]).pipeline_id != id by {
        assert(bs@[j].pipeline_id != id);
    }
    false
}

fn prune_slots(v: &Vec<LayoutSlot>, bs: &Vec<PipelineBinding>, raw: u128) -> (r: (Vec<LayoutSlot>, bool))
    ensures
        slot_views(r.0@) == slot_views(v@).map_values(
            |x: SlotView| if slot_dangling(x, binding_views(bs@), raw) {
                cleared(x)
            } else {
                x
            },
        ),
        r.1 == exists|i: int|
            0 <= i < v@.len() && slot_dangling(#[trigger] slot_views(v@)[i], binding_views(bs@), raw),
{
    let ghost bv = binding_views(bs@);
    let mut out: Vec<LayoutSlot> = Vec::new();
    let mut hit = false;
    let mut i: usize = 0;
    while i < v.len()
        invariant
            bv == binding_views(bs@),
            i <= v@.len(),
            out@.len() == i,
            forall|k: int| 0 <= k < i ==> (#[trigger] out@[k])@ == (if slot_dangling(v@[k]@, bv, raw) {
                cleared(v@[k]@)
            } else {
                v@[k]@
            }),
            hit == exists|k: int| 0 <= k < i && slot_dangling(#[trigger] slot_views(v@)[k], bv, raw),
        decreases v@.len() - i,
    {
        let x = &v[i];
        assert(slot_views(v@)[i as int] == x@);
        let dangling = match x.pipeline_id {
            Some(p) => !is_known(bs, raw, p),
            None => false,
        };
        if dangling {
            out.push(LayoutSlot { row: x.row, column: x.column, pipeline_id: None, output_key: None });
            hit = true;
        } else {
            out.push(clone_slot(x));
        }
        i = i + 1;
    }
    let ghost f = |x: SlotView| if slot_dangling(x, bv, raw) {
        cleared(x)
    } else {
        x
    };
    assert(slot_views(out@) =~= slot_views(v@).map_values(f));
    (out, hit)
}

fn keep_known_wires(v: &Vec<PipelineWire>, bs: &Vec<PipelineBinding>, raw: u128) -> (r: Vec<PipelineWire>)
    ensures
        wire_views(r@) == wires_known(wire_views(v@), binding_views(bs@), raw),
{
    let ghost bv = binding_views(bs@);
    let mut out: Vec<PipelineWire> = Vec::new();
    let mut i: usize = 0;
    while i < v.len()
        invariant
            bv == binding_views(bs@),
            i <= v@.len(),
            wire_views(out@) == wires_known(wire_views(v@.subrange(0, i as int)), bv, raw),
        decreases v@.len() - i,
    {
        let ghost prev = wire_views(v@.subrange(0, i as int));
        let ghost next = wire_views(v@.subrange(0, i + 1));
        assert(next.drop_last() =~= prev);
        assert(next.last() == v@[i as int]@);
        if is_known(bs, raw, v[i].from.pipeline_id) && is_known(bs, raw, v[i].to.pipeline_id) {
            out.push(clone_wire(&v[i]));
            assert(wire_views(out@) =~= wires_known(prev, bv, raw).push(v@[i as int]@));
        }
        i = i + 1;
    }
    assert(v@.subrange(0, v@.len() as int) =~= v@);
    out
}

/// Drops references to pipelines that are neither bound nor RAW; tells
/// whether a layout slot lost its pipeline.
pub fn prune_dangling_pipeline_references(cfg: &mut PipelineConfig, raw: u128) -> (r: bool)
    ensures
        final(cfg)@ == pruned(old(cfg)@, raw),
        r == prunes_slots(old(cfg)@, raw),
{
    let drop_active = match cfg.active_pipeline_id {
        Some(a) => !is_known(&cfg.pipelines, raw, a),
        None => false,
    };
    if drop_active {
        cfg.active_pipeline_id = None;
        cfg.active_pipeline_output = None;
    }
    let (layout, hit) = match &cfg.pipeline_layout {
        Some(l) => {
            let (slots, hit) = prune_slots(&l.slots, &cfg.pipelines, raw);
            (Some(PipelineLayout { rows: l.rows, columns: l.columns, slots }), hit)
        },
        None => (None, false),
    };
    cfg.pipeline_layout = layout;
    cfg.pipeline_wires = keep_known_wires(&cfg.pipeline_wires, &cfg.pipelines, raw);
    assert(cfg@ =~= pruned(old(cfg)@, raw));
    hit
}

// ---------------------------------------------------------------------------
// The active selection and the single-view grid.

/// With bindings but no active pipeline, the first binding becomes active.
pub open spec fn activated(c: ConfigView) -> ConfigView {
    if c.bindings.len() > 0 && c.active_id is None {
        ConfigView { active_id: Some(c.bindings[0].pipeline_id), ..c }
    } else {
        c
    }
}

/// The first slot at row 0, column 0 from index `i` on, or the length.
pub open spec fn origin_from(s: Seq<SlotView>, i: int) -> int
    decreases s.len() - i,
{
    if i < 0 || i >= s.len() {
        s.len() as int
    } else if s[i].row == 0 && s[i].column == 0 {
        i
    } else {
        origin_from(s, i + 1)
    }
}

/// The first slot that shows a pipeline from index `i` on, or the length.
pub open spec fn shown_from(s: Seq<SlotView>, i: int) -> int
    decreases s.len() - i,
{
    if i < 0 || i >= s.len() {
        s.len() as int
    } else if s[i].pipeline_id is Some {
        i
    } else {
        shown_from(s, i + 1)
    }
}

pub proof fn lemma_origin_from(s: Seq<SlotView>, i: int)
    requires
        0 <= i <= s.len(),
    ensures
        i <= origin_from(s, i) <= s.len(),
        origin_from(s, i) < s.len() ==> s[origin_from(s, i)].row == 0 && s[origin_from(s, i)].column == 0,
        forall|k: int| i <= k < origin_from(s, i) ==> !(s[k].row == 0 && s[k].column == 0),
    decreases s.len() - i,
{
    if i < s.len() && !(s[i].row == 0 && s[i].column == 0) {
        lemma_origin_from(s, i + 1);
    }
}

pub proof fn lemma_shown_from(s: Seq<SlotView>, i: int)
    requires
        0 <= i <= s.len(),
    ensures
        i <= shown_from(s, i) <= s.len(),
        shown_from(s, i) < s.len() ==> s[shown_from(s, i)].pipeline_id is Some,
        forall|k: int| i <= k < shown_from(s, i) ==> s[k].pipeline_id is None,
    decreases s.len() - i,
{
    if i < s.len() && s[i].pipeline_id is None {
        lemma_shown_from(s, i + 1);
    }
}

/// After slots were pruned, a single-view grid that shows nothing is
/// pointed at the active pipeline, or else the first bound one.
pub open spec fn recovered(c: ConfigView) -> ConfigView {
    match c.layout {
        None => c,
        Some(l) => {
            let target = if c.active_id is Some {
                c.active_id
            } else if c.bindings.len() > 0 {
                Some(c.bindings[0].pipeline_id)
            } else {
                None
            };
            if l.rows != 1 || l.columns != 1 || slots_show_any(l.slots) || target is None {
                c
            } else {
                let k = origin_from(l.slots, 0);
                let slots = if k < l.slots.len() {
                    let x = l.slots[k];
                    l.slots.update(
                        k,
                        SlotView {
                            row: x.row,
                            column: x.column,
                            pipeline_id: target,
                            output_key: if norm_out(x.output_key) is None {
                                c.active_output
                            } else {
                                x.output_key
                            },
                        },
                    )
                } else {
                    l.slots.push(
                        SlotView { row: 0, column: 0, pipeline_id: target, output_key: c.active_output },
                    )
                };
                ConfigView { layout: Some(with_slots(l, slots)), ..c }
            }
        },
    }
}

/// The default output of the first binding of `id` from index `i` on.
pub open spec fn binding_output_from(bs: Seq<BindingView>, id: u128, i: int) -> Option<Seq<char>>
    decreases bs.len() - i,
{
    if i < 0 || i >= bs.len() {
        None
    } else if bs[i].pipeline_id == id {
        norm_out(bs[i].pipeline_output)
    } else {
        binding_output_from(bs, id, i + 1)
    }
}

/// In a single-view grid, the active selection follows the visible slot
/// (the one at row 0, column 0, else the first that shows a pipeline).
pub open spec fn aligned(c: ConfigView) -> ConfigView {
    match c.layout {
        Some(l) => if l.rows == 1 && l.columns == 1 {
            let k0 = origin_from(l.slots, 0);
            let k = if k0 < l.slots.len() {
                k0
            } else {
                shown_from(l.slots, 0)
            };
            if k >= l.slots.len() {
                c
            } else {
                let x = l.slots[k];
                let active_id = if x.pipeline_id is Some {
                    x.pipeline_id
                } else {
                    c.active_id
                };
                let active_output = if norm_out(x.output_key) is Some {
                    norm_out(x.output_key)
                } else {
                    match x.pipeline_id {
                        Some(p) => if c.active_id != Some(p) {
                            binding_output_from(c.bindings, p, 0)
                        } else if norm_out(c.active_output) is Some {
                            norm_out(c.active_output)
                        } else {
                            c.active_output
                        },
                        None => c.active_output,
                    }
                };
                ConfigView { active_id, active_output, ..c }
            }
        } else {
            c
        },
        None => c,
    }
}

/// Inline graphs are dropped from every binding.
pub open spec fn without_graphs(c: ConfigView) -> ConfigView {
    ConfigView {
        bindings: c.bindings.map_values(
            |b: BindingView|
                BindingView {
                    pipeline_id: b.pipeline_id,
                    pipeline_output: b.pipeline_output,
                    has_inline_graph: false,
                },
        ),
        ..c
    }
}

pub open spec fn emptied(c: ConfigView) -> ConfigView {
    ConfigView {
        enabled: c.enabled,
        bindings: Seq::empty(),
        active_id: None,
        active_output: None,
        layout: None,
        wires: Seq::empty(),
    }
}

/// What normalizing the pipeline part of a manifest gives.
pub open spec fn normalized_pipeline(c: ConfigView, ids: ReservedPipelineIds) -> ConfigView {
    let s = canonicalized(stripped(c, ids.calibration_mode), ids.raw);
    if !s.enabled {
        emptied(s)
    } else {
        let p = pruned(s, ids.raw);
        let a = activated(p);
        let r = if prunes_slots(s, ids.raw) {
            recovered(a)
        } else {
            a
        };
        without_graphs(canonicalized(aligned(r), ids.raw))
    }
}

fn clone_slots(v: &Vec<LayoutSlot>) -> (r: Vec<LayoutSlot>)
    ensures
        r@ == v@,
{
    let mut out: Vec<LayoutSlot> = Vec::new();
    let mut i: usize = 0;
    while i < v.len()
        invariant
            i <= v@.len(),
            out@ == v@.subrange(0, i as int),
        decreases v@.len() - i,
    {
        out.push(clone_slot(&v[i]));
        assert(out@ =~= v@.subrange(0, i + 1));
        i = i + 1;
    }
    assert(v@.subrange(0, v@.len() as int) =~= v@);
    out
}

pub fn find_origin_slot(v: &Vec<LayoutSlot>) -> (r: usize)
    ensures
        r == origin_from(slot_views(v@), 0),
{
    let ghost sv = slot_views(v@);
    let mut i: usize = 0;
    while i < v.len()
        invariant
            sv == slot_views(v@),
            i <= v@.len(),
            origin_from(sv, 0) == origin_from(sv, i as int),
        decreases v@.len() - i,
    {
        assert(sv[i as int] == v@[i as int]@);
        if v[i].row == 0 && v[i].column == 0 {
            return i;
        }
        i = i + 1;
    }
    i
}

pub fn find_shown_slot(v: &Vec<LayoutSlot>) -> (r: usize)
    ensures
        r == shown_from(slot_views(v@), 0),
{
    let ghost sv = slot_views(v@);
    let mut i: usize = 0;
    while i < v.len()
        invariant
            sv == slot_views(v@),
            i <= v@.len(),
            shown_from(sv, 0) == shown_from(sv, i as int),
        decreases v@.len() - i,
    {
        assert(sv[i as int] == v@[i as int]@);
        if v[i].pipeline_id.is_some() {
            return i;
        }
        i = i + 1;
    }
    i
}

fn binding_output(bs: &Vec<PipelineBinding>, id: u128) -> (r: Option<String>)
    ensures
        opt_view(r) == binding_output_from(binding_views(bs@), id, 0),
{
    let ghost bv = binding_views(bs@);
    let mut i: usize = 0;
    while i < bs.len()
        invariant
            bv == binding_views(bs@),
            i <= bs@.len(),
            binding_output_from(bv, id, 0) == binding_output_from(bv, id, i as int),
        decreases bs@.len() - i,
    {
        assert(bv[i as int] == bs@[i as int]@);
        if bs[i].pipeline_id == id {
            return crate::streams::outputs::normalized_output_value(&bs[i].pipeline_output);
        }
        i = i + 1;
    }
    None
}

/// After slots were pruned, points an empty single-view grid at the active
/// pipeline, or else the first bound one.
pub fn recover_single_view_slot_from_active(cfg: &mut PipelineConfig)
    ensures
        final(cfg)@ == recovered(old(cfg)@),
{
    let (rows, columns, shows) = match &cfg.pipeline_layout {
        None => return,
        Some(l) => (l.rows, l.columns, any_slot_shows(&l.slots)),
    };
    if rows != 1 || columns != 1 || shows {
        return;
    }
    let target = if cfg.active_pipeline_id.is_some() {
        cfg.active_pipeline_id
    } else if cfg.pipelines.len() > 0 {
        Some(cfg.pipelines[0].pipeline_id)
    } else {
        None
    };
    let p = match target {
        None => return,
        Some(p) => p,
    };
    let mut slots = match &cfg.pipeline_layout {
        Some(l) => clone_slots(&l.slots),
        None => return,
    };
    let ghost before = slot_views(slots@);
    let k = find_origin_slot(&slots);
    if k < slots.len() {
        let x = clone_slot(&slots[k]);
        let blank = crate::streams::outputs::normalized_output_value(&x.output_key).is_none();
        let key = if blank {
            clone_opt(&cfg.active_pipeline_output)
        } else {
            x.output_key
        };
        let ghost new_view = SlotView { row: x.row, column: x.column, pipeline_id: Some(p), output_key: opt_view(key) };
        slots.set(k, LayoutSlot { row: x.row, column: x.column, pipeline_id: Some(p), output_key: key });
        assert(slot_views(slots@) =~= before.update(k as int, new_view));
    } else {
        slots.push(LayoutSlot { row: 0, column: 0, pipeline_id: Some(p), output_key: clone_opt(&cfg.active_pipeline_output) });
        assert(slot_views(slots@) =~= before.push(SlotView { row: 0, column: 0, pipeline_id: Some(p), output_key: opt_view(cfg.active_pipeline_output) }));
    }
    cfg.pipeline_layout = Some(PipelineLayout { rows, columns, slots });
    assert(cfg@ =~= recovered(old(cfg)@));
}

/// In a single-view grid, makes the active selection follow the visible slot.
fn align_active_with_single_view(cfg: &mut PipelineConfig)
    ensures
        final(cfg)@ == aligned(old(cfg)@),
{
    let (pid, key) = match &cfg.pipeline_layout {
        None => return,
        Some(l) => {
            if l.rows != 1 || l.columns != 1 {
                return;
            }
            let k0 = find_origin_slot(&l.slots);
            let k = if k0 < l.slots.len() {
                k0
            } else {
                find_shown_slot(&l.slots)
            };
            if k >= l.slots.len() {
                return;
            }
            assert(slot_views(l.slots@)[k as int] == l.slots@[k as int]@);
            (l.slots[k].pipeline_id, crate::streams::outputs::normalized_output_value(&l.slots[k].output_key))
        },
    };
    let prev_id = cfg.active_pipeline_id;
    let prev_out = crate::streams::outputs::normalized_output_value(&cfg.active_pipeline_output);
    if pid.is_some() {
        cfg.active_pipeline_id = pid;
    }
    match key {
        Some(k) => {
            cfg.active_pipeline_output = Some(k);
        },
        None => match pid {
            Some(p) => {
                if prev_id != Some(p) {
                    cfg.active_pipeline_output = binding_output(&cfg.pipelines, p);
                } else if prev_out.is_some() {
                    cfg.active_pipeline_output = prev_out;
                }
            },
            None => {},
        },
    }
    assert(cfg@ =~= aligned(old(cfg)@));
}

fn drop_inline_graphs(cfg: &mut PipelineConfig)
    ensures
        final(cfg)@ == without_graphs(old(cfg)@),
{
    let mut out: Vec<PipelineBinding> = Vec::new();
    let mut i: usize = 0;
    while i < cfg.pipelines.len()
        invariant
            i <= cfg.pipelines@.len(),
            out@.len() == i,
            forall|k: int| 0 <= k < i ==> (#[trigger] out@[k])@ == (BindingView {
                pipeline_id: cfg.pipelines@[k].pipeline_id,
                pipeline_output: opt_view(cfg.pipelines@[k].pipeline_output),
                has_inline_graph: false,
            }),
        decreases cfg.pipelines@.len() - i,
    {
        let b = &cfg.pipelines[i];
        out.push(PipelineBinding { pipeline_id: b.pipeline_id, pipeline_output: clone_opt(&b.pipeline_output), has_inline_graph: false });
        i = i + 1;
    }
    let ghost before = cfg@;
    assert(binding_views(out@) =~= without_graphs(before).bindings);
    cfg.pipelines = out;
    assert(cfg@ =~= without_graphs(before));
}

/// Normalizes the pipeline part of a manifest so that the bindings are the
/// one source of truth: the reserved calibration-mode pipeline is removed,
/// RAW outputs take their canonical names, a disabled pipeline set is
/// emptied, references to unbound pipelines are dropped, the first binding
/// becomes active when none is, a single-view grid keeps showing something
/// and the active selection follows it, and inline graphs are dropped.
pub fn normalize_pipeline_manifest(cfg: &mut PipelineConfig, ids: &ReservedPipelineIds)
    ensures
        final(cfg)@ == normalized_pipeline(old(cfg)@, *ids),
{
    strip_reserved_pipeline_ids(cfg, ids);
    canonicalize_raw_output_aliases(cfg, ids.raw);
    if !cfg.pipeline_enabled {
        cfg.pipelines = Vec::new();
        cfg.active_pipeline_id = None;
        cfg.active_pipeline_output = None;
        cfg.pipeline_layout = None;
        cfg.pipeline_wires = Vec::new();
        assert(binding_views(cfg.pipelines@) =~= Seq::<BindingView>::empty());
        assert(wire_views(cfg.pipeline_wires@) =~= Seq::<WireView>::empty());
        return;
    }
    let ghost s = cfg@;
    let pruned_slots = prune_dangling_pipeline_references(cfg, ids.raw);
    if cfg.pipelines.len() > 0 && cfg.active_pipeline_id.is_none() {
        assert(binding_views(cfg.pipelines@)[0] == cfg.pipelines@[0]@);
        cfg.active_pipeline_id = Some(cfg.pipelines[0].pipeline_id);
    }
    assert(cfg@ =~= activated(pruned(s, ids.raw)));
    if pruned_slots {
        recover_single_view_slot_from_active(cfg);
    }
    align_active_with_single_view(cfg);
    canonicalize_raw_output_aliases(cfg, ids.raw);
    drop_inline_graphs(cfg);
}

} // verus!
