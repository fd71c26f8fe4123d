//! Normalization of a stream manifest before it is validated, with a
//! warning for each change: file replay paths are trimmed and deduplicated,
//! the reserved calibration-mode pipeline is removed, output selectors are
//! trimmed, a file replay gets an alias, and a redundant temporal-denoise
//! output is switched off.
use vstd::prelude::*;
use crate::streams::manifest::{
    binding_views, opt_view, slot_views, wire_views, BindingView, ConfigView, EndpointView,
    LayoutSlot, PipelineBinding, PipelineConfig, PipelineLayout, PipelineWire,
    ReservedPipelineIds, SlotView, WireEndpoint, WireView,
};
use crate::streams::outputs::{clone_opt, norm_out, normalized_output_value};
use crate::streams::pipeline::{stripped, with_slots};
use crate::streams::validation::{
    only_if, pointer, ptr, push_warning, random_uuid, uuid_string, uuid_text, warn,
    warning_views, BackendHandle, BackendKind, CaptureConfig, ControlAssignment, ControlValue,
    StreamIdentity, ValidationWarning, WarningV,
};
use crate::text::{owned, trim, trim_str, views};

verus! {

// ---------------------------------------------------------------------------
// File replay paths.

/// An earlier path trims to the same text as path `i`.
pub open spec fn path_seen_before(ps: Seq<Seq<char>>, i: int) -> bool {
    exists|j: int| 0 <= j < i && trim(#[trigger] ps[j]) == trim(ps[i])
}

/// The paths kept among the first `n`: trimmed, without blanks, each text once.
pub open spec fn kept_paths(ps: Seq<Seq<char>>, n: int) -> Seq<Seq<char>>
    decreases n,
{
    if n <= 0 {
        Seq::empty()
    } else {
        kept_paths(ps, n - 1) + only_if(
            trim(ps[n - 1]).len() > 0 && !path_seen_before(ps, n - 1),
            trim(ps[n - 1]),
        )
    }
}

pub open spec fn path_warning(ps: Seq<Seq<char>>, i: int) -> Seq<WarningV> {
    let at = ptr("/capture/handle/paths/"@, i as nat, ""@);
    if trim(ps[i]).len() == 0 {
        seq![warn(at, "empty_path_removed"@, "removed empty file path"@)]
    } else if path_seen_before(ps, i) {
        seq![warn(at, "duplicate_path_removed"@, "removed duplicate file path entry"@)]
    } else {
        only_if(
            trim(ps[i]) != ps[i],
            warn(at, "path_trimmed"@, "trimmed surrounding whitespace from file path"@),
        )
    }
}

pub open spec fn path_warnings(ps: Seq<Seq<char>>, n: int) -> Seq<WarningV>
    decreases n,
{
    if n <= 0 {
        Seq::empty()
    } else {
        path_warnings(ps, n - 1) + path_warning(ps, n - 1)
    }
}

proof fn lemma_kept_are_seen(ps: Seq<Seq<char>>, n: int, t: Seq<char>)
    requires
        0 <= n <= ps.len(),
    ensures
        kept_paths(ps, n).contains(t) <==> (t.len() > 0 && exists|j: int| 0 <= j < n && trim(#[trigger] ps[j]) == t),
    decreases n,
{
    if n > 0 {
        lemma_kept_are_seen(ps, n - 1, t);
        let prev = kept_paths(ps, n - 1);
        let x = trim(ps[n - 1]);
        if trim(ps[n - 1]).len() > 0 && !path_seen_before(ps, n - 1) {
            assert(kept_paths(ps, n) == prev.push(x));
            if kept_paths(ps, n).contains(t) && !prev.contains(t) {
                let k = choose|k: int| 0 <= k < kept_paths(ps, n).len() && kept_paths(ps, n)[k] == t;
                assert(k == prev.len());
            }
            if t == x {
                assert(kept_paths(ps, n)[prev.len() as int] == t);
            }
            if prev.contains(t) {
                let k = choose|k: int| 0 <= k < prev.len() && prev[k] == t;
                assert(kept_paths(ps, n)[k] == t);
            }
        } else {
            assert(kept_paths(ps, n) =~= prev);
            if t.len() > 0 && exists|j: int| 0 <= j < n && trim(#[trigger] ps[j]) == t {
                let j = choose|j: int| 0 <= j < n && trim(#[trigger] ps[j]) == t;
                if j == n - 1 {
                    let j2 = choose|j2: int| 0 <= j2 < n - 1 && trim(#[trigger] ps[j2]) == trim(ps[n - 1]);
                    assert(trim(ps[j2]) == t);
                }
            }
        }
    }
}

fn seen_among(kept: &Vec<String>, t: &str) -> (r: bool)
    ensures
        r == views(kept@).contains(t@),
{
    let mut i: usize = 0;
    while i < kept.len()
        invariant
            i <= kept@.len(),
            forall|k: int| 0 <= k < i ==> (#[trigger] kept@[k])@ != t@,
        decreases kept@.len() - i,
    {
        if crate::text::seq_eq(kept[i].as_str(), t) {
            assert(views(kept@)[i as int] == t@);
            return true;
        }
        i = i + 1;
    }
    proof {
        if views(kept@).contains(t@) {
            let k = choose|k: int| 0 <= k < views(kept@).len() && views(kept@)[k] == t@;
            assert(kept@[k]@ == t@);
        }
    }
    false
}

fn dedup_paths(paths: &Vec<String>, warnings: &mut Vec<ValidationWarning>) -> (r: Vec<String>)
    ensures
        views(r@) == kept_paths(views(paths@), paths@.len() as int),
        warning_views(final(warnings)@) == warning_views(old(warnings)@) + path_warnings(
            views(paths@),
            paths@.len() as int,
        ),
{
    let ghost pv = views(paths@);
    let ghost start = warning_views(warnings@);
    let mut kept: Vec<String> = Vec::new();
    let mut i: usize = 0;
    while i < paths.len()
        invariant
            pv == views(paths@),
            i <= paths@.len(),
            views(kept@) == kept_paths(pv, i as int),
            warning_views(warnings@) == start + path_warnings(pv, i as int),
        decreases paths@.len() - i,
    {
        let raw = paths[i].as_str();
        assert(pv[i as int] == raw@);
        let t = trim_str(raw);
        let ghost before = warning_views(warnings@);
        proof {
            lemma_kept_are_seen(pv, i as int, t@);
        }
        if t.unicode_len() == 0 {
            push_warning(warnings, pointer("/capture/handle/paths/", i, ""), "empty_path_removed", owned("removed empty file path"));
            assert(views(kept@) =~= kept_paths(pv, i + 1));
        } else if seen_among(&kept, t) {
            proof {
                let j = choose|j: int| 0 <= j < i && trim(#[trigger] pv[j]) == t@;
                assert(path_seen_before(pv, i as int));
            }
            push_warning(warnings, pointer("/capture/handle/paths/", i, ""), "duplicate_path_removed", owned("removed duplicate file path entry"));
            assert(views(kept@) =~= kept_paths(pv, i + 1));
        } else {
            assert(!path_seen_before(pv, i as int));
            if !crate::text::seq_eq(t, raw) {
                push_warning(warnings, pointer("/capture/handle/paths/", i, ""), "path_trimmed", owned("trimmed surrounding whitespace from file path"));
            }
            kept.push(owned(t));
            assert(views(kept@) =~= kept_paths(pv, i as int).push(t@));
        }
        assert(warning_views(warnings@) =~= start + path_warnings(pv, i + 1));
        i = i + 1;
    }
    kept
}

pub open spec fn handle_with_paths(h: BackendHandle, b: BackendKind) -> Option<Seq<Seq<char>>> {
    match h {
        BackendHandle::File { paths, .. } => if b == BackendKind::File {
            Some(kept_paths(views(paths@), paths@.len() as int))
        } else {
            Some(views(paths@))
        },
        _ => None,
    }
}

pub open spec fn file_path_warnings(c: CaptureConfig) -> Seq<WarningV> {
    match c.handle {
        BackendHandle::File { paths, .. } => if c.backend == BackendKind::File {
            path_warnings(views(paths@), paths@.len() as int)
        } else {
            Seq::empty()
        },
        _ => Seq::empty(),
    }
}

/// Trims the paths of a file replay, dropping blank and repeated ones.
pub fn normalize_file_backend_paths(c: &mut CaptureConfig, warnings: &mut Vec<ValidationWarning>)
    ensures
        crate::streams::validation::file_paths(final(c).handle) == handle_with_paths(old(c).handle, old(c).backend),
        final(c).backend == old(c).backend,
        final(c).device_keys == old(c).device_keys,
        final(c).format_fourcc == old(c).format_fourcc,
        final(c).controls == old(c).controls,
        final(c).enable_tdn_output == old(c).enable_tdn_output,
        final(c).target_fps == old(c).target_fps,
        match (old(c).handle, final(c).handle) {
            (BackendHandle::File { fps: a, loop_forever: b, .. }, BackendHandle::File { fps: x, loop_forever: y, .. }) => a == x && b == y,
            (h, k) => h == k,
        },
        warning_views(final(warnings)@) == warning_views(old(warnings)@) + file_path_warnings(*old(c)),
{
    if c.backend != BackendKind::File {
        assert(warning_views(warnings@) =~= warning_views(old(warnings)@) + file_path_warnings(*old(c)));
        return;
    }
    let (kept, fps, loop_forever) = match &c.handle {
        BackendHandle::File { paths, fps, loop_forever } => (dedup_paths(paths, warnings), *fps, *loop_forever),
        _ => {
            assert(warning_views(warnings@) =~= warning_views(old(warnings)@) + file_path_warnings(*old(c)));
            return;
        },
    };
    c.handle = BackendHandle::File { paths: kept, fps, loop_forever };
}

// ---------------------------------------------------------------------------
// The reserved calibration-mode pipeline, with warnings.

/// The configuration with the calibration-mode pipeline removed, pipelines
/// left enabled or not as they were.
pub open spec fn unreserved(c: ConfigView, cal: u128) -> ConfigView {
    ConfigView { enabled: c.enabled, ..stripped(c, cal) }
}

pub open spec fn slot_reserved_warnings(s: Seq<SlotView>, cal: u128, n: int) -> Seq<WarningV>
    decreases n,
{
    if n <= 0 {
        Seq::empty()
    } else {
        slot_reserved_warnings(s, cal, n - 1) + only_if(
            s[n - 1].pipeline_id == Some(cal),
            warn(
                ptr("/pipelineLayout/slots/"@, (n - 1) as nat, ""@),
                "reserved_pipeline_removed"@,
                "removed reserved calibration-mode layout slot pipeline"@,
            ),
        )
    }
}

pub open spec fn reserved_warnings(c: ConfigView, cal: u128) -> Seq<WarningV> {
    let s = stripped(c, cal);
    only_if(
        s.bindings.len() != c.bindings.len(),
        warn("/pipelines"@, "reserved_pipeline_removed"@, "removed reserved calibration-mode pipeline binding"@),
    ) + only_if(
        c.active_id == Some(cal),
        warn(
            "/activePipelineId"@,
            "reserved_pipeline_removed"@,
            "removed reserved calibration-mode active pipeline selection"@,
        ),
    ) + match c.layout {
        Some(l) => slot_reserved_warnings(l.slots, cal, l.slots.len() as int),
        None => Seq::empty(),
    } + only_if(
        s.wires.len() != c.wires.len(),
        warn(
            "/pipelineWires"@,
            "reserved_pipeline_removed"@,
            "removed wires referencing reserved calibration-mode pipeline"@,
        ),
    )
}

fn warn_reserved_slots(slots: &Vec<LayoutSlot>, cal: u128, warnings: &mut Vec<ValidationWarning>)
    ensures
        warning_views(final(warnings)@) == warning_views(old(warnings)@) + slot_reserved_warnings(
            slot_views(slots@),
            cal,
            slots@.len() as int,
        ),
{
    let ghost start = warning_views(warnings@);
    let ghost sv = slot_views(slots@);
    let mut i: usize = 0;
    while i < slots.len()
        invariant
            sv == slot_views(slots@),
            i <= slots@.len(),
            warning_views(warnings@) == start + slot_reserved_warnings(sv, cal, i as int),
        decreases slots@.len() - i,
    {
        assert(sv[i as int] == slots@[i as int]@);
        if slots[i].pipeline_id == Some(cal) {
            push_warning(
                warnings,
                pointer("/pipelineLayout/slots/", i, ""),
                "reserved_pipeline_removed",
                owned("removed reserved calibration-mode layout slot pipeline"),
            );
        }
        assert(warning_views(warnings@) =~= start + slot_reserved_warnings(sv, cal, i + 1));
        i = i + 1;
    }
}

/// Removes the reserved calibration-mode pipeline, warning about each place
/// it was found in.
pub fn normalize_reserved_pipeline_ids(cfg: &mut PipelineConfig, ids: &ReservedPipelineIds, warnings: &mut Vec<ValidationWarning>)
    ensures
        final(cfg)@ == unreserved(old(cfg)@, ids.calibration_mode),
        warning_views(final(warnings)@) == warning_views(old(warnings)@) + reserved_warnings(
            old(cfg)@,
            ids.calibration_mode,
        ),
{
    let cal = ids.calibration_mode;
    let ghost c0 = cfg@;
    let ghost w0 = warning_views(warnings@);
    let enabled = cfg.pipeline_enabled;
    let n_bindings = cfg.pipelines.len();
    let n_wires = cfg.pipeline_wires.len();
    let active_hit = cfg.active_pipeline_id == Some(cal);
    let mut slot_warnings: Vec<ValidationWarning> = Vec::new();
    match &cfg.pipeline_layout {
        Some(l) => warn_reserved_slots(&l.slots, cal, &mut slot_warnings),
        None => {},
    }
    crate::streams::pipeline::strip_reserved_pipeline_ids(cfg, ids);
    cfg.pipeline_enabled = enabled;
    proof {
        assert(binding_views(cfg.pipelines@).len() == cfg.pipelines@.len());
        assert(c0.bindings.len() == n_bindings);
        assert(wire_views(cfg.pipeline_wires@).len() == cfg.pipeline_wires@.len());
        assert(c0.wires.len() == n_wires);
    }
    if cfg.pipelines.len() != n_bindings {
        push_warning(warnings, owned("/pipelines"), "reserved_pipeline_removed", owned("removed reserved calibration-mode pipeline binding"));
    }
    if active_hit {
        push_warning(
            warnings,
            owned("/activePipelineId"),
            "reserved_pipeline_removed",
            owned("removed reserved calibration-mode active pipeline selection"),
        );
    }
    let ghost mid = warning_views(warnings@);
    warnings.append(&mut slot_warnings);
    assert(warning_views(warnings@) =~= mid + match c0.layout {
        Some(l) => slot_reserved_warnings(l.slots, cal, l.slots.len() as int),
        None => Seq::empty(),
    });
    if cfg.pipeline_wires.len() != n_wires {
        push_warning(
            warnings,
            owned("/pipelineWires"),
            "reserved_pipeline_removed",
            owned("removed wires referencing reserved calibration-mode pipeline"),
        );
    }
    assert(cfg@ =~= unreserved(c0, cal));
    assert(warning_views(warnings@) =~= w0 + reserved_warnings(c0, cal));
}

// ---------------------------------------------------------------------------
// Output selectors.

pub open spec fn trim_warning(old: Option<Seq<char>>, at: Seq<char>, label: Seq<char>) -> Seq<WarningV> {
    only_if(norm_out(old) != old, warn(at, "output_trimmed"@, label + " was trimmed"@))
}

pub open spec fn binding_trim_warnings(bs: Seq<BindingView>, n: int) -> Seq<WarningV>
    decreases n,
{
    if n <= 0 {
        Seq::empty()
    } else {
        binding_trim_warnings(bs, n - 1) + trim_warning(
            bs[n - 1].pipeline_output,
            ptr("/pipelines/"@, (n - 1) as nat, "/pipelineOutput"@),
            "pipeline output"@,
        )
    }
}

pub open spec fn slot_trim_warnings(s: Seq<SlotView>, n: int) -> Seq<WarningV>
    decreases n,
{
    if n <= 0 {
        Seq::empty()
    } else {
        slot_trim_warnings(s, n - 1) + trim_warning(
            s[n - 1].output_key,
            ptr("/pipelineLayout/slots/"@, (n - 1) as nat, "/outputKey"@),
            "layout output"@,
        )
    }
}

pub open spec fn wire_trim_warnings(w: Seq<WireView>, n: int) -> Seq<WarningV>
    decreases n,
{
    if n <= 0 {
        Seq::empty()
    } else {
        wire_trim_warnings(w, n - 1) + trim_warning(
            w[n - 1].from.output_key,
            ptr("/pipelineWires/"@, (n - 1) as nat, "/from/outputKey"@),
            "wire output selector"@,
        ) + trim_warning(
            w[n - 1].from.port,
            ptr("/pipelineWires/"@, (n - 1) as nat, "/from/port"@),
            "wire output port"@,
        )
    }
}

pub open spec fn output_trim_warnings(c: ConfigView) -> Seq<WarningV> {
    trim_warning(c.active_output, "/activePipelineOutput"@, "active pipeline output"@)
        + binding_trim_warnings(c.bindings, c.bindings.len() as int) + match c.layout {
        Some(l) => slot_trim_warnings(l.slots, l.slots.len() as int),
        None => Seq::empty(),
    } + wire_trim_warnings(c.wires, c.wires.len() as int)
}

/// Every output selector trimmed; a blank one dropped.
pub open spec fn outputs_trimmed(c: ConfigView) -> ConfigView {
    ConfigView {
        enabled: c.enabled,
        bindings: c.bindings.map_values(
            |b: BindingView|
                BindingView {
                    pipeline_id: b.pipeline_id,
                    pipeline_output: norm_out(b.pipeline_output),
                    has_inline_graph: b.has_inline_graph,
                },
        ),
        active_id: c.active_id,
        active_output: norm_out(c.active_output),
        layout: match c.layout {
            Some(l) => Some(
                with_slots(
                    l,
                    l.slots.map_values(
                        |x: SlotView|
                            SlotView {
                                row: x.row,
                                column: x.column,
                                pipeline_id: x.pipeline_id,
                                output_key: norm_out(x.output_key),
                            },
                    ),
                ),
            ),
            None => None,
        },
        wires: c.wires.map_values(
            |w: WireView|
                WireView {
                    from: EndpointView {
                        pipeline_id: w.from.pipeline_id,
                        output_key: norm_out(w.from.output_key),
                        port: norm_out(w.from.port),
                    },
                    to: w.to,
                },
        ),
    }
}

fn trim_optional_output_field(value: &Option<String>, at: String, label: &'static str, warnings: &mut Vec<ValidationWarning>) -> (r: Option<String>)
    ensures
        opt_view(r) == norm_out(opt_view(*value)),
        warning_views(final(warnings)@) == warning_views(old(warnings)@) + trim_warning(opt_view(*value), at@, label@),
{
    let t = normalized_output_value(value);
    let changed = match (&t, value) {
        (Some(a), Some(b)) => !crate::text::seq_eq(a.as_str(), b.as_str()),
        (None, None) => false,
        _ => true,
    };
    if changed {
        let mut message = owned(label);
        message.append(" was trimmed");
        push_warning(warnings, at, "output_trimmed", message);
    }
    assert(warning_views(warnings@) =~= warning_views(old(warnings)@) + trim_warning(opt_view(*value), at@, label@));
    t
}

/// Trims every output selector, warning about each one that changed.
pub fn normalize_pipeline_output_fields(cfg: &mut PipelineConfig, warnings: &mut Vec<ValidationWarning>)
    ensures
        final(cfg)@ == outputs_trimmed(old(cfg)@),
        warning_views(final(warnings)@) == warning_views(old(warnings)@) + output_trim_warnings(old(cfg)@),
{
    let ghost c0 = cfg@;
    let ghost w0 = warning_views(warnings@);
    let active = trim_optional_output_field(&cfg.active_pipeline_output, owned("/activePipelineOutput"), "active pipeline output", warnings);
    cfg.active_pipeline_output = active;
    let ghost w1 = warning_views(warnings@);
    let mut bindings: Vec<PipelineBinding> = Vec::new();
    let mut i: usize = 0;
    while i < cfg.pipelines.len()
        invariant
            c0.bindings == binding_views(cfg.pipelines@),
            i <= cfg.pipelines@.len(),
            bindings@.len() == i,
            forall|k: int| 0 <= k < i ==> (#[trigger] bindings@[k])@ == (BindingView {
                pipeline_id: c0.bindings[k].pipeline_id,
                pipeline_output: norm_out(c0.bindings[k].pipeline_output),
                has_inline_graph: c0.bindings[k].has_inline_graph,
            }),
            warning_views(warnings@) == w1 + binding_trim_warnings(c0.bindings, i as int),
        decreases cfg.pipelines@.len() - i,
    {
        let b = &cfg.pipelines[i];
        assert(c0.bindings[i as int] == b@);
        let out = trim_optional_output_field(&b.pipeline_output, pointer("/pipelines/", i, "/pipelineOutput"), "pipeline output", warnings);
        bindings.push(PipelineBinding { pipeline_id: b.pipeline_id, pipeline_output: out, has_inline_graph: b.has_inline_graph });
        assert(warning_views(warnings@) =~= w1 + binding_trim_warnings(c0.bindings, i + 1));
        i = i + 1;
    }
    assert(binding_views(bindings@) =~= outputs_trimmed(c0).bindings);
    cfg.pipelines = bindings;
    let ghost w2 = warning_views(warnings@);
    assert(crate::streams::manifest::layout_view(cfg.pipeline_layout) == c0.layout);
    let layout = match &cfg.pipeline_layout {
        Some(l) => {
            assert(c0.layout == Some(l@));
            let ghost sv = slot_views(l.slots@);
            let mut slots: Vec<LayoutSlot> = Vec::new();
            let mut j: usize = 0;
            while j < l.slots.len()
                invariant
                    sv == slot_views(l.slots@),
                    j <= l.slots@.len(),
                    slots@.len() == j,
                    forall|k: int| 0 <= k < j ==> (#[trigger] slots@[k])@ == (SlotView {
                        row: sv[k].row,
                        column: sv[k].column,
                        pipeline_id: sv[k].pipeline_id,
                        output_key: norm_out(sv[k].output_key),
                    }),
                    warning_views(warnings@) == w2 + slot_trim_warnings(sv, j as int),
                decreases l.slots@.len() - j,
            {
                let x = &l.slots[j];
                assert(sv[j as int] == x@);
                let key = trim_optional_output_field(&x.output_key, pointer("/pipelineLayout/slots/", j, "/outputKey"), "layout output", warnings);
                slots.push(LayoutSlot { row: x.row, column: x.column, pipeline_id: x.pipeline_id, output_key: key });
                assert(warning_views(warnings@) =~= w2 + slot_trim_warnings(sv, j + 1));
                j = j + 1;
            }
            assert(slot_views(slots@) =~= outputs_trimmed(c0).layout->0.slots);
            let nl = PipelineLayout { rows: l.rows, columns: l.columns, slots };
            assert(nl@ =~= outputs_trimmed(c0).layout->0);
            Some(nl)
        },
        None => None,
    };
    cfg.pipeline_layout = layout;
    let ghost w3 = warning_views(warnings@);
    let mut wires: Vec<PipelineWire> = Vec::new();
    let mut k: usize = 0;
    while k < cfg.pipeline_wires.len()
        invariant
            c0.wires == wire_views(cfg.pipeline_wires@),
            k <= cfg.pipeline_wires@.len(),
            wires@.len() == k,
            forall|q: int| 0 <= q < k ==> (#[trigger] wires@[q])@ == (WireView {
                from: EndpointView {
                    pipeline_id: c0.wires[q].from.pipeline_id,
                    output_key: norm_out(c0.wires[q].from.output_key),
                    port: norm_out(c0.wires[q].from.port),
                },
                to: c0.wires[q].to,
            }),
            warning_views(warnings@) == w3 + wire_trim_warnings(c0.wires, k as int),
        decreases cfg.pipeline_wires@.len() - k,
    {
        let w = &cfg.pipeline_wires[k];
        assert(c0.wires[k as int] == w@);
        let key = trim_optional_output_field(&w.from.output_key, pointer("/pipelineWires/", k, "/from/outputKey"), "wire output selector", warnings);
        let port = trim_optional_output_field(&w.from.port, pointer("/pipelineWires/", k, "/from/port"), "wire output port", warnings);
        let to = WireEndpoint { pipeline_id: w.to.pipeline_id, output_key: clone_opt(&w.to.output_key), port: clone_opt(&w.to.port) };
        wires.push(PipelineWire { from: WireEndpoint { pipeline_id: w.from.pipeline_id, output_key: key, port }, to });
        assert(warning_views(warnings@) =~= w3 + wire_trim_warnings(c0.wires, k + 1));
        k = k + 1;
    }
    assert(wire_views(wires@) =~= outputs_trimmed(c0).wires);
    cfg.pipeline_wires = wires;
    assert(cfg@ =~= outputs_trimmed(c0));
    assert(warning_views(warnings@) =~= w0 + output_trim_warnings(c0));
}

// ---------------------------------------------------------------------------
// The alias of a file replay.

/// A file replay without an alias is called `media-replay-` and its id, or
/// `fresh` when it has no id either.
pub open spec fn replay_alias(ident: StreamIdentity, b: BackendKind, fresh: u128) -> Option<Seq<char>> {
    if b == BackendKind::File && norm_out(opt_view(ident.alias)) is None {
        Some(
            "media-replay-"@ + uuid_text(
                match ident.id {
                    Some(id) => id,
                    None => fresh,
                },
            ),
        )
    } else {
        opt_view(ident.alias)
    }
}

pub fn normalize_file_stream_identity_with(ident: &mut StreamIdentity, backend: BackendKind, fresh: u128)
    ensures
        opt_view(final(ident).alias) == replay_alias(*old(ident), backend, fresh),
        final(ident).id == old(ident).id,
        final(ident).hardware_id == old(ident).hardware_id,
{
    if backend != BackendKind::File {
        return;
    }
    if normalized_output_value(&ident.alias).is_some() {
        return;
    }
    let id = match ident.id {
        Some(id) => id,
        None => fresh,
    };
    let mut alias = owned("media-replay-");
    alias.append(uuid_string(id).as_str());
    ident.alias = Some(alias);
}

/// Gives a file replay without an alias the alias `media-replay-` and its
/// id, or a fresh random id when it has none.
pub fn normalize_file_stream_identity(ident: &mut StreamIdentity, backend: BackendKind)
    ensures
        exists|fresh: u128| opt_view(final(ident).alias) == replay_alias(*old(ident), backend, fresh),
        final(ident).id == old(ident).id,
        final(ident).hardware_id == old(ident).hardware_id,
{
    let needs_fresh = backend == BackendKind::File && normalized_output_value(&ident.alias).is_none() && ident.id.is_none();
    let fresh = if needs_fresh {
        random_uuid()
    } else {
        0
    };
    normalize_file_stream_identity_with(ident, backend, fresh);
}

// ---------------------------------------------------------------------------
// The temporal-denoise output of a libcamera capture.

/// What the capture descriptor says of one control.
#[derive(Debug, Clone, Copy, PartialEq, Eq, Structural)]
pub struct ControlMeta {
    pub id: u32,
    pub requires_tdn_output: bool,
}

pub open spec fn value_enabled(v: ControlValue) -> bool {
    match v {
        ControlValue::Int(x) => x != 0,
        ControlValue::Uint(x) => x != 0,
        ControlValue::Float { bits } => bits & 0x7fff_ffff_ffff_ffffu64 != 0,
        ControlValue::Bool(b) => b,
        ControlValue::Unset => false,
    }
}

pub fn capture_control_value_is_enabled(v: ControlValue) -> (r: bool)
    ensures
        r == value_enabled(v),
{
    match v {
        ControlValue::Int(x) => x != 0,
        ControlValue::Uint(x) => x != 0,
        ControlValue::Float { bits } => bits & 0x7fff_ffff_ffff_ffffu64 != 0,
        ControlValue::Bool(b) => b,
        ControlValue::Unset => false,
    }
}

/// What the first descriptor entry for control `id` from index `i` on says.
pub open spec fn meta_requires_from(metas: Seq<ControlMeta>, id: u32, i: int) -> bool
    decreases metas.len() - i,
{
    if i < 0 || i >= metas.len() {
        false
    } else if metas[i].id == id {
        metas[i].requires_tdn_output
    } else {
        meta_requires_from(metas, id, i + 1)
    }
}

/// Some enabled control needs the temporal-denoise output.
pub open spec fn controls_require_tdn(controls: Seq<ControlAssignment>, metas: Seq<ControlMeta>) -> bool {
    exists|i: int|
        0 <= i < controls.len() && value_enabled((#[trigger] controls[i]).value) && meta_requires_from(
            metas,
            controls[i].id,
            0,
        )
}

fn meta_requires(metas: &Vec<ControlMeta>, id: u32) -> (r: bool)
    ensures
        r == meta_requires_from(metas@, id, 0),
{
    let mut i: usize = 0;
    while i < metas.len()
        invariant
            i <= metas@.len(),
            meta_requires_from(metas@, id, 0) == meta_requires_from(metas@, id, i as int),
        decreases metas@.len() - i,
    {
        if metas[i].id == id {
            return metas[i].requires_tdn_output;
        }
        i = i + 1;
    }
    false
}

pub fn manifest_controls_require_tdn_output(controls: &Vec<ControlAssignment>, metas: &Vec<ControlMeta>) -> (r: bool)
    ensures
        r == controls_require_tdn(controls@, metas@),
{
    let mut i: usize = 0;
    while i < controls.len()
        invariant
            i <= controls@.len(),
            forall|k: int|
                0 <= k < i ==> !(value_enabled((#[trigger] controls@[k]).value) && meta_requires_from(
                    metas@,
                    controls@[k].id,
                    0,
                )),
        decreases controls@.len() - i,
    {
        if capture_control_value_is_enabled(controls[i].value) && meta_requires(metas, controls[i].id) {
            return true;
        }
        i = i + 1;
    }
    false
}

/// The temporal-denoise output stays on for a libcamera capture only when
/// the descriptor is known and an enabled control needs it.
pub open spec fn tdn_after(c: CaptureConfig, descriptor: Option<Seq<ControlMeta>>) -> bool {
    if c.backend != BackendKind::Libcamera || !c.enable_tdn_output {
        c.enable_tdn_output
    } else {
        match descriptor {
            None => c.enable_tdn_output,
            Some(metas) => controls_require_tdn(c.controls@, metas),
        }
    }
}

pub fn normalize_capture_tdn_output_with_descriptor(c: &mut CaptureConfig, descriptor: Option<&Vec<ControlMeta>>)
    ensures
        final(c).enable_tdn_output == tdn_after(
            *old(c),
            match descriptor {
                Some(d) => Some(d@),
                None => None,
            },
        ),
        final(c).backend == old(c).backend,
        final(c).handle == old(c).handle,
        final(c).controls == old(c).controls,
        final(c).device_keys == old(c).device_keys,
        final(c).format_fourcc == old(c).format_fourcc,
{
    if c.backend != BackendKind::Libcamera || !c.enable_tdn_output {
        return;
    }
    let metas = match descriptor {
        None => return,
        Some(d) => d,
    };
    if !manifest_controls_require_tdn_output(&c.controls, metas) {
        c.enable_tdn_output = false;
    }
}

} // verus!
