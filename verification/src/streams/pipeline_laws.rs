//! What every normalized pipeline configuration satisfies, whatever the
//! request held.
use vstd::prelude::*;
use crate::streams::manifest::{
    BindingView, ConfigView, ReservedPipelineIds, SlotView, WireView,
};
use crate::streams::outputs::{
    canon_raw, lemma_canon_raw_idempotent, lemma_canon_raw_trimmed, lemma_norm_out_idempotent, norm_out,
};
use crate::streams::pipeline::{
    activated, aligned, binding_output_from, bindings_without, canon_slot, canonicalized, cleared, emptied,
    known, lemma_origin_from, lemma_shown_from, normalized_pipeline, origin_from, pruned, prunes_slots,
    recovered, shown_from, slot_dangling, slots_clearing, stripped, with_slots, wires_known, wires_without,
    without_graphs,
};

verus! {

pub open spec fn bindings_avoid(bs: Seq<BindingView>, id: u128) -> bool {
    forall|j: int| 0 <= j < bs.len() ==> (#[trigger] bs[j]).pipeline_id != id
}

pub open spec fn slots_avoid(s: Seq<SlotView>, id: u128) -> bool {
    forall|j: int| 0 <= j < s.len() ==> (#[trigger] s[j]).pipeline_id != Some(id)
}

pub open spec fn wires_avoid(s: Seq<WireView>, id: u128) -> bool {
    forall|j: int|
        0 <= j < s.len() ==> (#[trigger] s[j]).from.pipeline_id != id && s[j].to.pipeline_id != id
}

/// Nothing in the configuration refers to pipeline `id`.
pub open spec fn avoids(c: ConfigView, id: u128) -> bool {
    &&& bindings_avoid(c.bindings, id)
    &&& c.active_id != Some(id)
    &&& (c.layout matches Some(l) ==> slots_avoid(l.slots, id))
    &&& wires_avoid(c.wires, id)
}

/// Every pipeline that the active selection, a slot or a wire refers to is
/// bound, or is the RAW pipeline.
pub open spec fn refs_known(c: ConfigView, raw: u128) -> bool {
    &&& (c.active_id matches Some(a) ==> known(c.bindings, raw, a))
    &&& (c.layout matches Some(l) ==> forall|j: int|
        0 <= j < l.slots.len() ==> ((#[trigger] l.slots[j]).pipeline_id matches Some(p) ==> known(
            c.bindings,
            raw,
            p,
        )))
    &&& forall|j: int|
        0 <= j < c.wires.len() ==> known(c.bindings, raw, (#[trigger] c.wires[j]).from.pipeline_id)
            && known(c.bindings, raw, c.wires[j].to.pipeline_id)
}

/// Every selector of a RAW pipeline output already has its canonical name.
pub open spec fn raw_outputs_canonical(c: ConfigView, raw: u128) -> bool {
    &&& (c.active_id == Some(raw) ==> canon_raw(c.active_output) == c.active_output)
    &&& forall|j: int|
        0 <= j < c.bindings.len() && (#[trigger] c.bindings[j]).pipeline_id == raw ==> canon_raw(
            c.bindings[j].pipeline_output,
        ) == c.bindings[j].pipeline_output
    &&& (c.layout matches Some(l) ==> forall|j: int|
        0 <= j < l.slots.len() && (#[trigger] l.slots[j]).pipeline_id == Some(raw) ==> canon_raw(
            l.slots[j].output_key,
        ) == l.slots[j].output_key)
    &&& forall|j: int|
        0 <= j < c.wires.len() && (#[trigger] c.wires[j]).from.pipeline_id == raw ==> canon_raw(
            c.wires[j].from.output_key,
        ) == c.wires[j].from.output_key
}

pub open spec fn same_ids(a: Seq<BindingView>, b: Seq<BindingView>) -> bool {
    a.len() == b.len() && forall|j: int| 0 <= j < a.len() ==> (#[trigger] a[j]).pipeline_id == b[j].pipeline_id
}

proof fn lemma_bindings_without(s: Seq<BindingView>, id: u128)
    ensures
        bindings_avoid(bindings_without(s, id), id),
        forall|j: int| 0 <= j < bindings_without(s, id).len() ==> exists|k: int|
            0 <= k < s.len() && s[k] == #[trigger] bindings_without(s, id)[j],
    decreases s.len(),
{
    if s.len() > 0 {
        lemma_bindings_without(s.drop_last(), id);
        let r = bindings_without(s.drop_last(), id);
        assert forall|j: int| 0 <= j < bindings_without(s, id).len() implies exists|k: int|
            0 <= k < s.len() && s[k] == #[trigger] bindings_without(s, id)[j] by {
            if j < r.len() {
                let k = choose|k: int| 0 <= k < s.drop_last().len() && s.drop_last()[k] == r[j];
                assert(s[k] == r[j]);
            } else {
                assert(s[s.len() - 1] == bindings_without(s, id)[j]);
            }
        }
    }
}

pub proof fn lemma_wires_without(s: Seq<WireView>, id: u128)
    ensures
        wires_avoid(wires_without(s, id), id),
    decreases s.len(),
{
    if s.len() > 0 {
        lemma_wires_without(s.drop_last(), id);
    }
}

proof fn lemma_wires_known(s: Seq<WireView>, bs: Seq<BindingView>, raw: u128, id: u128)
    ensures
        wires_avoid(s, id) ==> wires_avoid(wires_known(s, bs, raw), id),
        forall|j: int| 0 <= j < wires_known(s, bs, raw).len() ==> known(bs, raw, (#[trigger] wires_known(s, bs, raw)[j]).from.pipeline_id)
            && known(bs, raw, wires_known(s, bs, raw)[j].to.pipeline_id),
    decreases s.len(),
{
    if s.len() > 0 {
        lemma_wires_known(s.drop_last(), bs, raw, id);
        if wires_avoid(s, id) {
            assert(wires_avoid(s.drop_last(), id)) by {
                assert forall|j: int| 0 <= j < s.drop_last().len() implies (#[trigger] s.drop_last()[j]).from.pipeline_id != id && s.drop_last()[j].to.pipeline_id != id by {
                    assert(s.drop_last()[j] == s[j]);
                }
            }
            assert(s.last() == s[s.len() - 1]);
        }
    }
}

proof fn lemma_known_same_ids(a: Seq<BindingView>, b: Seq<BindingView>, raw: u128)
    requires
        same_ids(a, b),
    ensures
        forall|id: u128| #[trigger] known(a, raw, id) == known(b, raw, id),
{
    assert forall|id: u128| #[trigger] known(a, raw, id) == known(b, raw, id) by {
        if known(a, raw, id) && id != raw {
            let j = choose|j: int| 0 <= j < a.len() && (#[trigger] a[j]).pipeline_id == id;
            assert(b[j].pipeline_id == id);
        }
        if known(b, raw, id) && id != raw {
            let j = choose|j: int| 0 <= j < b.len() && (#[trigger] b[j]).pipeline_id == id;
            assert(a[j].pipeline_id == id);
        }
    }
}

proof fn lemma_canonicalized(c: ConfigView, raw: u128, id: u128)
    ensures
        same_ids(canonicalized(c, raw).bindings, c.bindings),
        avoids(c, id) ==> avoids(canonicalized(c, raw), id),
        refs_known(c, raw) ==> refs_known(canonicalized(c, raw), raw),
        raw_outputs_canonical(canonicalized(c, raw), raw),
        canonicalized(c, raw).enabled == c.enabled,
{
    let r = canonicalized(c, raw);
    lemma_known_same_ids(r.bindings, c.bindings, raw);
    lemma_canon_raw_idempotent(c.active_output);
    assert forall|j: int| 0 <= j < r.bindings.len() && (#[trigger] r.bindings[j]).pipeline_id == raw implies canon_raw(r.bindings[j].pipeline_output) == r.bindings[j].pipeline_output by {
        lemma_canon_raw_idempotent(c.bindings[j].pipeline_output);
    }
    if let Some(l) = r.layout {
        assert forall|j: int| 0 <= j < l.slots.len() && (#[trigger] l.slots[j]).pipeline_id == Some(raw) implies canon_raw(l.slots[j].output_key) == l.slots[j].output_key by {
            lemma_canon_raw_idempotent(c.layout->0.slots[j].output_key);
        }
    }
    assert forall|j: int| 0 <= j < r.wires.len() && (#[trigger] r.wires[j]).from.pipeline_id == raw implies canon_raw(r.wires[j].from.output_key) == r.wires[j].from.output_key by {
        lemma_canon_raw_idempotent(c.wires[j].from.output_key);
    }
    if refs_known(c, raw) {
        if let Some(l) = r.layout {
            assert forall|j: int| 0 <= j < l.slots.len() implies ((#[trigger] l.slots[j]).pipeline_id matches Some(p) ==> known(r.bindings, raw, p)) by {
                assert(l.slots[j].pipeline_id == c.layout->0.slots[j].pipeline_id);
            }
        }
        assert forall|j: int| 0 <= j < r.wires.len() implies known(r.bindings, raw, (#[trigger] r.wires[j]).from.pipeline_id)
            && known(r.bindings, raw, r.wires[j].to.pipeline_id) by {
            assert(r.wires[j].from.pipeline_id == c.wires[j].from.pipeline_id);
        }
    }
}

proof fn lemma_without_graphs(c: ConfigView, raw: u128, id: u128)
    ensures
        same_ids(without_graphs(c).bindings, c.bindings),
        avoids(c, id) ==> avoids(without_graphs(c), id),
        refs_known(c, raw) ==> refs_known(without_graphs(c), raw),
        raw_outputs_canonical(c, raw) ==> raw_outputs_canonical(without_graphs(c), raw),
        forall|j: int| 0 <= j < without_graphs(c).bindings.len() ==> !(#[trigger] without_graphs(c).bindings[j]).has_inline_graph,
{
    let r = without_graphs(c);
    lemma_known_same_ids(r.bindings, c.bindings, raw);
    if raw_outputs_canonical(c, raw) {
        assert forall|j: int| 0 <= j < r.bindings.len() && (#[trigger] r.bindings[j]).pipeline_id == raw implies canon_raw(r.bindings[j].pipeline_output) == r.bindings[j].pipeline_output by {
            assert(c.bindings[j].pipeline_id == raw);
        }
    }
}

proof fn lemma_stripped(c: ConfigView, cal: u128)
    ensures
        avoids(stripped(c, cal), cal),
{
    lemma_bindings_without(c.bindings, cal);
    lemma_wires_without(c.wires, cal);
}

proof fn lemma_pruned(s: ConfigView, raw: u128, cal: u128)
    ensures
        avoids(s, cal) ==> avoids(pruned(s, raw), cal),
        refs_known(pruned(s, raw), raw),
        pruned(s, raw).bindings == s.bindings,
{
    lemma_wires_known(s.wires, s.bindings, raw, cal);
}

proof fn lemma_activated(p: ConfigView, raw: u128, cal: u128)
    ensures
        avoids(p, cal) ==> avoids(activated(p), cal),
        refs_known(p, raw) ==> refs_known(activated(p), raw),
        activated(p).bindings == p.bindings,
{
    if p.bindings.len() > 0 && p.active_id is None {
        assert(p.bindings[0].pipeline_id == p.bindings[0].pipeline_id);
    }
}

proof fn lemma_recovered(a: ConfigView, raw: u128, cal: u128)
    ensures
        avoids(a, cal) ==> avoids(recovered(a), cal),
        refs_known(a, raw) ==> refs_known(recovered(a), raw),
        recovered(a).bindings == a.bindings,
{
    if let Some(l) = a.layout {
        lemma_origin_from(l.slots, 0);
        let r = recovered(a);
        if r != a {
            let rl = r.layout->0;
            if avoids(a, cal) {
                assert forall|j: int| 0 <= j < rl.slots.len() implies (#[trigger] rl.slots[j]).pipeline_id != Some(cal) by {
                    if j < l.slots.len() && rl.slots[j] == l.slots[j] {
                    } else if a.active_id is None {
                        assert(a.bindings[0].pipeline_id != cal);
                    }
                }
            }
            if refs_known(a, raw) {
                assert forall|j: int| 0 <= j < rl.slots.len() implies ((#[trigger] rl.slots[j]).pipeline_id matches Some(p) ==> known(r.bindings, raw, p)) by {
                    if j < l.slots.len() && rl.slots[j] == l.slots[j] {
                    } else if a.active_id is None {
                        assert(a.bindings[0].pipeline_id == a.bindings[0].pipeline_id);
                    }
                }
            }
        }
    }
}

proof fn lemma_aligned(r: ConfigView, raw: u128, cal: u128)
    ensures
        avoids(r, cal) ==> avoids(aligned(r), cal),
        refs_known(r, raw) ==> refs_known(aligned(r), raw),
        aligned(r).bindings == r.bindings,
{
    if let Some(l) = r.layout {
        lemma_origin_from(l.slots, 0);
        lemma_shown_from(l.slots, 0);
    }
}

/// The reserved calibration-mode pipeline never survives normalization: no
/// binding, active selection, slot or wire refers to it afterwards.
pub proof fn lemma_normalized_avoids_calibration_mode(c: ConfigView, ids: ReservedPipelineIds)
    ensures
        avoids(normalized_pipeline(c, ids), ids.calibration_mode),
{
    let cal = ids.calibration_mode;
    let raw = ids.raw;
    let st = stripped(c, cal);
    lemma_stripped(c, cal);
    let s = canonicalized(st, raw);
    lemma_canonicalized(st, raw, cal);
    if s.enabled {
        let p = pruned(s, raw);
        lemma_pruned(s, raw, cal);
        let a = activated(p);
        lemma_activated(p, raw, cal);
        let r = if prunes_slots(s, raw) {
            recovered(a)
        } else {
            a
        };
        lemma_recovered(a, raw, cal);
        let al = aligned(r);
        lemma_aligned(r, raw, cal);
        lemma_canonicalized(al, raw, cal);
        lemma_without_graphs(canonicalized(al, raw), raw, cal);
    }
}

/// With pipelines enabled, normalization leaves no dangling reference: the
/// active selection, every slot and both ends of every wire name a bound
/// pipeline or the RAW pipeline.
pub proof fn lemma_normalized_refs_known(c: ConfigView, ids: ReservedPipelineIds)
    ensures
        refs_known(normalized_pipeline(c, ids), ids.raw),
{
    let cal = ids.calibration_mode;
    let raw = ids.raw;
    let s = canonicalized(stripped(c, cal), raw);
    if s.enabled {
        let p = pruned(s, raw);
        lemma_pruned(s, raw, cal);
        let a = activated(p);
        lemma_activated(p, raw, cal);
        let r = if prunes_slots(s, raw) {
            recovered(a)
        } else {
            a
        };
        lemma_recovered(a, raw, cal);
        let al = aligned(r);
        lemma_aligned(r, raw, cal);
        lemma_canonicalized(al, raw, cal);
        lemma_without_graphs(canonicalized(al, raw), raw, cal);
    }
}

/// A normalized configuration with pipelines disabled holds no pipeline
/// state; an enabled one holds no inline graph, and its RAW output
/// selectors all have canonical names.
pub proof fn lemma_normalized_shape(c: ConfigView, ids: ReservedPipelineIds)
    ensures
        !normalized_pipeline(c, ids).enabled ==> {
            let n = normalized_pipeline(c, ids);
            &&& n.bindings.len() == 0
            &&& n.active_id is None
            &&& n.active_output is None
            &&& n.layout is None
            &&& n.wires.len() == 0
        },
        forall|j: int|
            0 <= j < normalized_pipeline(c, ids).bindings.len() ==> !(#[trigger] normalized_pipeline(
                c,
                ids,
            ).bindings[j]).has_inline_graph,
        raw_outputs_canonical(normalized_pipeline(c, ids), ids.raw),
{
    let cal = ids.calibration_mode;
    let raw = ids.raw;
    let s = canonicalized(stripped(c, cal), raw);
    lemma_canonicalized(stripped(c, cal), raw, cal);
    if s.enabled {
        let p = pruned(s, raw);
        let a = activated(p);
        let r = if prunes_slots(s, raw) {
            recovered(a)
        } else {
            a
        };
        let al = aligned(r);
        lemma_canonicalized(al, raw, cal);
        lemma_without_graphs(canonicalized(al, raw), raw, cal);
    }
}


// ---------------------------------------------------------------------------
// Normalizing twice.

proof fn lemma_bindings_without_nothing(s: Seq<BindingView>, id: u128)
    requires
        bindings_avoid(s, id),
    ensures
        bindings_without(s, id) == s,
    decreases s.len(),
{
    if s.len() > 0 {
        assert(bindings_avoid(s.drop_last(), id)) by {
            assert forall|j: int| 0 <= j < s.drop_last().len() implies (#[trigger] s.drop_last()[j]).pipeline_id != id by {
                assert(s.drop_last()[j] == s[j]);
            }
        }
        lemma_bindings_without_nothing(s.drop_last(), id);
        assert(s.last() == s[s.len() - 1]);
        assert(s.drop_last().push(s.last()) =~= s);
    }
}

proof fn lemma_wires_without_nothing(s: Seq<WireView>, id: u128)
    requires
        wires_avoid(s, id),
    ensures
        wires_without(s, id) == s,
    decreases s.len(),
{
    if s.len() > 0 {
        assert(wires_avoid(s.drop_last(), id)) by {
            assert forall|j: int| 0 <= j < s.drop_last().len() implies (#[trigger] s.drop_last()[j]).from.pipeline_id != id
                && s.drop_last()[j].to.pipeline_id != id by {
                assert(s.drop_last()[j] == s[j]);
            }
        }
        lemma_wires_without_nothing(s.drop_last(), id);
        assert(s.last() == s[s.len() - 1]);
        assert(s.drop_last().push(s.last()) =~= s);
    }
}

proof fn lemma_wires_known_all(s: Seq<WireView>, bs: Seq<BindingView>, raw: u128)
    requires
        forall|j: int| 0 <= j < s.len() ==> known(bs, raw, (#[trigger] s[j]).from.pipeline_id) && known(bs, raw, s[j].to.pipeline_id),
    ensures
        wires_known(s, bs, raw) == s,
    decreases s.len(),
{
    if s.len() > 0 {
        assert forall|j: int| 0 <= j < s.drop_last().len() implies known(bs, raw, (#[trigger] s.drop_last()[j]).from.pipeline_id)
            && known(bs, raw, s.drop_last()[j].to.pipeline_id) by {
            assert(s.drop_last()[j] == s[j]);
        }
        lemma_wires_known_all(s.drop_last(), bs, raw);
        assert(s.last() == s[s.len() - 1]);
        assert(s.drop_last().push(s.last()) =~= s);
    }
}

/// A configuration that does not refer to `cal` loses nothing to stripping.
proof fn lemma_stripped_nothing(c: ConfigView, cal: u128)
    requires
        avoids(c, cal),
    ensures
        stripped(c, cal) == c,
{
    lemma_bindings_without_nothing(c.bindings, cal);
    lemma_wires_without_nothing(c.wires, cal);
    if let Some(l) = c.layout {
        assert(slots_clearing(l.slots, cal) =~= l.slots);
        assert(with_slots(l, l.slots) == l);
        assert(!(exists|i: int| 0 <= i < l.slots.len() && l.slots[i].pipeline_id == Some(cal)));
    }
}

/// A configuration whose RAW selectors are canonical is left as it is.
proof fn lemma_canonicalized_nothing(c: ConfigView, raw: u128)
    requires
        raw_outputs_canonical(c, raw),
    ensures
        canonicalized(c, raw) == c,
{
    let r = canonicalized(c, raw);
    assert(r.bindings =~= c.bindings);
    if let Some(l) = c.layout {
        let m = l.slots.map_values(|x: SlotView| canon_slot(x, raw));
        assert(m =~= l.slots);
        assert(with_slots(l, l.slots) == l);
    }
    assert(r.wires =~= c.wires);
}

/// A configuration without dangling references is left as it is by
/// pruning, and has no slot to prune.
proof fn lemma_pruned_nothing(c: ConfigView, raw: u128)
    requires
        refs_known(c, raw),
    ensures
        pruned(c, raw) == c,
        !prunes_slots(c, raw),
{
    lemma_wires_known_all(c.wires, c.bindings, raw);
    if let Some(l) = c.layout {
        let m = l.slots.map_values(
            |x: SlotView| if slot_dangling(x, c.bindings, raw) {
                cleared(x)
            } else {
                x
            },
        );
        assert(m =~= l.slots);
        assert(with_slots(l, l.slots) == l);
    }
}

/// Canonical names leave the slot lookups of a single-view grid unchanged.
proof fn lemma_canon_slots_lookup(s: Seq<SlotView>, raw: u128, i: int)
    requires
        0 <= i <= s.len(),
    ensures
        origin_from(s.map_values(|x: SlotView| canon_slot(x, raw)), i) == origin_from(s, i),
        shown_from(s.map_values(|x: SlotView| canon_slot(x, raw)), i) == shown_from(s, i),
    decreases s.len() - i,
{
    let m = s.map_values(|x: SlotView| canon_slot(x, raw));
    if i < s.len() {
        assert(m[i] == canon_slot(s[i], raw));
        lemma_canon_slots_lookup(s, raw, i + 1);
    }
}

proof fn lemma_canon_slots_idempotent(s: Seq<SlotView>, raw: u128)
    ensures
        s.map_values(|x: SlotView| canon_slot(x, raw)).map_values(|x: SlotView| canon_slot(x, raw))
            =~= s.map_values(|x: SlotView| canon_slot(x, raw)),
{
    assert forall|j: int| 0 <= j < s.len() implies canon_slot(canon_slot(s[j], raw), raw) == canon_slot(s[j], raw) by {
        lemma_canon_raw_idempotent(s[j].output_key);
    }
}

/// The selection that a single-view grid imposes settles in one round:
/// aligning, canonicalizing and dropping graphs a second time gives back
/// the same configuration.
proof fn lemma_realigned(r: ConfigView, raw: u128)
    ensures
        ({
            let n = without_graphs(canonicalized(aligned(r), raw));
            without_graphs(canonicalized(aligned(n), raw)) == n
        }),
{
    let al = aligned(r);
    let n = without_graphs(canonicalized(al, raw));
    let al2 = aligned(n);
    let m = without_graphs(canonicalized(al2, raw));
    // The bindings, the layout and the wires come out as before.
    assert(m.bindings =~= n.bindings) by {
        assert forall|j: int| 0 <= j < n.bindings.len() implies m.bindings[j] == n.bindings[j] by {
            lemma_canon_raw_idempotent(al.bindings[j].pipeline_output);
        }
    }
    if let Some(l) = al.layout {
        lemma_canon_slots_idempotent(l.slots, raw);
    }
    assert(m.wires =~= n.wires) by {
        assert forall|j: int| 0 <= j < n.wires.len() implies m.wires[j] == n.wires[j] by {
            lemma_canon_raw_idempotent(al.wires[j].from.output_key);
        }
    }
    assert(m.layout == n.layout);
    // The active selection comes out as before.
    lemma_canon_raw_idempotent(al.active_output);
    lemma_canon_raw_trimmed(al.active_output);
    lemma_norm_out_idempotent(al.active_output);
    if let Some(l) = r.layout {
        if l.rows == 1 && l.columns == 1 {
            let cs = l.slots.map_values(|x: SlotView| canon_slot(x, raw));
            lemma_canon_slots_lookup(l.slots, raw, 0);
            lemma_origin_from(l.slots, 0);
            lemma_shown_from(l.slots, 0);
            let k0 = origin_from(l.slots, 0);
            let k = if k0 < l.slots.len() {
                k0
            } else {
                shown_from(l.slots, 0)
            };
            if k < l.slots.len() {
                let x = l.slots[k];
                assert(cs[k] == canon_slot(x, raw));
                lemma_canon_raw_trimmed(x.output_key);
                lemma_norm_out_idempotent(x.output_key);
                lemma_canon_raw_idempotent(x.output_key);
                match x.pipeline_id {
                    Some(p) => {
                        if r.active_id != Some(p) {
                            lemma_binding_output_trimmed(r.bindings, p, 0);
                        }
                        lemma_norm_out_idempotent(r.active_output);
                    },
                    None => {},
                }
            }
        }
    }
    assert(m.active_id == n.active_id);
    assert(m.active_output == n.active_output);
}

proof fn lemma_binding_output_trimmed(bs: Seq<BindingView>, id: u128, i: int)
    ensures
        norm_out(binding_output_from(bs, id, i)) == binding_output_from(bs, id, i),
    decreases bs.len() - i,
{
    if 0 <= i < bs.len() {
        if bs[i].pipeline_id == id {
            lemma_norm_out_idempotent(bs[i].pipeline_output);
        } else {
            lemma_binding_output_trimmed(bs, id, i + 1);
        }
    }
}

/// With bindings, a normalized configuration has an active pipeline.
proof fn lemma_normalized_active(c: ConfigView, ids: ReservedPipelineIds)
    ensures
        normalized_pipeline(c, ids).bindings.len() > 0 ==> normalized_pipeline(c, ids).active_id is Some,
        normalized_pipeline(c, ids).enabled == canonicalized(stripped(c, ids.calibration_mode), ids.raw).enabled,
{
    let s = canonicalized(stripped(c, ids.calibration_mode), ids.raw);
    if s.enabled {
        let p = pruned(s, ids.raw);
        let a = activated(p);
        let r = if prunes_slots(s, ids.raw) {
            recovered(a)
        } else {
            a
        };
        if let Some(l) = r.layout {
            lemma_origin_from(l.slots, 0);
            lemma_shown_from(l.slots, 0);
        }
    }
}

/// Normalization is stable: normalizing a normalized configuration changes
/// nothing, so a configuration that is stored normalized comes back the
/// same each time it is loaded and normalized again.
pub proof fn law_normalization_is_idempotent(c: ConfigView, ids: ReservedPipelineIds)
    ensures
        normalized_pipeline(normalized_pipeline(c, ids), ids) == normalized_pipeline(c, ids),
{
    let cal = ids.calibration_mode;
    let raw = ids.raw;
    let n = normalized_pipeline(c, ids);
    lemma_normalized_avoids_calibration_mode(c, ids);
    lemma_normalized_refs_known(c, ids);
    lemma_normalized_shape(c, ids);
    lemma_normalized_active(c, ids);
    lemma_stripped_nothing(n, cal);
    lemma_canonicalized_nothing(n, raw);
    let s2 = canonicalized(stripped(n, cal), raw);
    assert(s2 == n);
    if !n.enabled {
        assert(n.bindings =~= Seq::<BindingView>::empty());
        assert(n.wires =~= Seq::<WireView>::empty());
        assert(emptied(n) == n);
    } else {
        lemma_pruned_nothing(n, raw);
        assert(activated(n) == n);
        let s = canonicalized(stripped(c, cal), raw);
        let p = pruned(s, raw);
        let a = activated(p);
        let r = if prunes_slots(s, raw) {
            recovered(a)
        } else {
            a
        };
        lemma_realigned(r, raw);
    }
}

} // verus!
