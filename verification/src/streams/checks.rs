//! The structural checks of a normalized stream manifest: backend and
//! handle agree, the explicit settings are usable, a file replay names a
//! file, and the layout, wires and bindings refer only to bound pipelines.
use vstd::prelude::*;
use crate::streams::manifest::{
    binding_views, slot_views, wire_views, BindingView, ConfigView, LayoutView, PipelineBinding,
    PipelineConfig, PipelineLayout, SlotView, WireView,
};
use crate::streams::outputs::norm_out;
use crate::streams::pipeline::known;
use crate::streams::validation::{
    file_paths, iss, issue_views, pointer, ptr, push_issue, uuid_string, uuid_text, only_if,
    BackendHandle, BackendKind, IssueV, StreamManifest, ValidationIssue,
};
use crate::text::{decimal, owned, push_decimal};

verus! {

// ---------------------------------------------------------------------------
// Backend and handle.

pub open spec fn backend_name(b: BackendKind) -> Seq<char> {
    match b {
        BackendKind::V4l2 => "v4l2"@,
        BackendKind::Libcamera => "libcamera"@,
        BackendKind::Virtual => "virtual"@,
        BackendKind::Netcam => "netcam"@,
        BackendKind::File => "file"@,
    }
}

pub open spec fn handle_name(h: BackendHandle) -> Seq<char> {
    match h {
        BackendHandle::V4l2 { .. } => "v4l2"@,
        BackendHandle::Libcamera { .. } => "libcamera"@,
        BackendHandle::Virtual => "virtual"@,
        BackendHandle::Netcam { .. } => "netcam"@,
        BackendHandle::File { .. } => "file"@,
    }
}

pub open spec fn handle_fits(b: BackendKind, h: BackendHandle) -> bool {
    match (b, h) {
        (BackendKind::V4l2, BackendHandle::V4l2 { .. }) => true,
        (BackendKind::Libcamera, BackendHandle::Libcamera { .. }) => true,
        (BackendKind::Virtual, BackendHandle::Virtual) => true,
        (BackendKind::Netcam, BackendHandle::Netcam { .. }) => true,
        (BackendKind::File, BackendHandle::File { .. }) => true,
        _ => false,
    }
}

pub fn backend_label(b: BackendKind) -> (r: &'static str)
    ensures
        r@ == backend_name(b),
{
    match b {
        BackendKind::V4l2 => "v4l2",
        BackendKind::Libcamera => "libcamera",
        BackendKind::Virtual => "virtual",
        BackendKind::Netcam => "netcam",
        BackendKind::File => "file",
    }
}

pub fn handle_label(h: &BackendHandle) -> (r: &'static str)
    ensures
        r@ == handle_name(*h),
{
    match h {
        BackendHandle::V4l2 { .. } => "v4l2",
        BackendHandle::Libcamera { .. } => "libcamera",
        BackendHandle::Virtual => "virtual",
        BackendHandle::Netcam { .. } => "netcam",
        BackendHandle::File { .. } => "file",
    }
}

pub open spec fn backend_issues(m: StreamManifest) -> Seq<IssueV> {
    only_if(
        !handle_fits(m.capture.backend, m.capture.handle),
        iss(
            "/capture/handle"@,
            "backend_handle_mismatch"@,
            "capture backend `"@ + backend_name(m.capture.backend) + "` does not match handle variant `"@
                + handle_name(m.capture.handle) + "`"@,
        ),
    )
}

pub fn validate_backend_and_handle(m: &StreamManifest, issues: &mut Vec<ValidationIssue>)
    ensures
        issue_views(final(issues)@) == issue_views(old(issues)@) + backend_issues(*m),
{
    let fits = match (&m.capture.backend, &m.capture.handle) {
        (BackendKind::V4l2, BackendHandle::V4l2 { .. }) => true,
        (BackendKind::Libcamera, BackendHandle::Libcamera { .. }) => true,
        (BackendKind::Virtual, BackendHandle::Virtual) => true,
        (BackendKind::Netcam, BackendHandle::Netcam { .. }) => true,
        (BackendKind::File, BackendHandle::File { .. }) => true,
        _ => false,
    };
    if !fits {
        let mut message = owned("capture backend `");
        message.append(backend_label(m.capture.backend));
        message.append("` does not match handle variant `");
        message.append(handle_label(&m.capture.handle));
        message.append("`");
        push_issue(issues, owned("/capture/handle"), "backend_handle_mismatch", message);
    }
    assert(issue_views(issues@) =~= issue_views(old(issues)@) + backend_issues(*m));
}


/// The backend/handle check raises at most one issue, and raises it exactly
/// when the handle is of another backend than the one named: each of the
/// five backends with its own kind of handle passes.
pub proof fn law_backend_mismatch_exactly_when_kinds_differ(m: StreamManifest)
    ensures
        backend_issues(m).len() <= 1,
        backend_issues(m).len() == 0 <==> backend_name(m.capture.backend) == handle_name(m.capture.handle),
        backend_issues(m).len() == 0 <==> ((m.capture.backend == BackendKind::V4l2 && m.capture.handle is V4l2) || (
        m.capture.backend == BackendKind::Libcamera && m.capture.handle is Libcamera) || (m.capture.backend
            == BackendKind::Virtual && m.capture.handle is Virtual) || (m.capture.backend == BackendKind::Netcam
            && m.capture.handle is Netcam) || (m.capture.backend == BackendKind::File && m.capture.handle is File)),
{
    reveal_strlit("v4l2");
    reveal_strlit("libcamera");
    reveal_strlit("virtual");
    reveal_strlit("netcam");
    reveal_strlit("file");
    let b = backend_name(m.capture.backend);
    let h = handle_name(m.capture.handle);
    if b == h {
        assert(b.len() == h.len());
        assert(b[0] == h[0]);
    }
}

// ---------------------------------------------------------------------------
// Explicit settings.

/// The manifest carries pipeline state of some kind.
pub open spec fn has_pipeline_state(c: ConfigView) -> bool {
    c.bindings.len() > 0 || c.active_id is Some || norm_out(c.active_output) is Some || c.layout is Some
        || c.wires.len() > 0
}

pub open spec fn explicit_config_issues(m: StreamManifest) -> Seq<IssueV> {
    only_if(
        m.host_buffer == 0,
        iss("/host_buffer"@, "host_buffer_must_be_positive"@, "host_buffer must be greater than zero"@),
    ) + only_if(
        m.preview_jpeg_quality == 0,
        iss(
            "/preview_jpeg_quality"@,
            "preview_quality_must_be_positive"@,
            "preview_jpeg_quality must be between 1 and 100"@,
        ),
    ) + only_if(
        !m.pipeline.pipeline_enabled && has_pipeline_state(m.pipeline@),
        iss(
            "/pipeline_enabled"@,
            "pipeline_disabled_with_pipeline_state"@,
            "pipeline_enabled=false requires pipelines, active pipeline selection, layout, and wires to be empty"@,
        ),
    )
}

pub fn validate_explicit_stream_config(m: &StreamManifest, issues: &mut Vec<ValidationIssue>)
    ensures
        issue_views(final(issues)@) == issue_views(old(issues)@) + explicit_config_issues(*m),
{
    let ghost start = issue_views(issues@);
    if m.host_buffer == 0 {
        push_issue(issues, owned("/host_buffer"), "host_buffer_must_be_positive", owned("host_buffer must be greater than zero"));
    }
    if m.preview_jpeg_quality == 0 {
        push_issue(issues, owned("/preview_jpeg_quality"), "preview_quality_must_be_positive", owned("preview_jpeg_quality must be between 1 and 100"));
    }
    let p = &m.pipeline;
    let output_set = crate::streams::outputs::normalized_output_value(&p.active_pipeline_output).is_some();
    proof {
        assert(binding_views(p.pipelines@).len() == p.pipelines@.len());
        assert(wire_views(p.pipeline_wires@).len() == p.pipeline_wires@.len());
    }
    let has_state = p.pipelines.len() > 0 || p.active_pipeline_id.is_some() || output_set
        || p.pipeline_layout.is_some() || p.pipeline_wires.len() > 0;
    if !p.pipeline_enabled && has_state {
        push_issue(
            issues,
            owned("/pipeline_enabled"),
            "pipeline_disabled_with_pipeline_state",
            owned("pipeline_enabled=false requires pipelines, active pipeline selection, layout, and wires to be empty"),
        );
    }
    assert(issue_views(issues@) =~= start + explicit_config_issues(*m));
}

// ---------------------------------------------------------------------------
// File replay paths.

pub open spec fn missing_paths_issues(m: StreamManifest) -> Seq<IssueV> {
    only_if(
        m.capture.backend == BackendKind::File && (file_paths(m.capture.handle) matches Some(ps)
            && ps.len() == 0),
        iss(
            "/capture/handle/paths"@,
            "missing_paths"@,
            "file backend requires at least one non-empty path"@,
        ),
    )
}

pub fn validate_file_backend_paths_present(m: &StreamManifest, issues: &mut Vec<ValidationIssue>)
    ensures
        issue_views(final(issues)@) == issue_views(old(issues)@) + missing_paths_issues(*m),
{
    if m.capture.backend == BackendKind::File {
        match &m.capture.handle {
            BackendHandle::File { paths, .. } => {
                if paths.len() == 0 {
                    push_issue(issues, owned("/capture/handle/paths"), "missing_paths", owned("file backend requires at least one non-empty path"));
                }
            },
            _ => {},
        }
    }
    assert(issue_views(issues@) =~= issue_views(old(issues)@) + missing_paths_issues(*m));
}

// ---------------------------------------------------------------------------
// The grid layout.

pub open spec fn same_cell(a: SlotView, b: SlotView) -> bool {
    a.row == b.row && a.column == b.column
}

/// An earlier slot takes the same cell as slot `i`.
pub open spec fn cell_taken_before(s: Seq<SlotView>, i: int) -> bool {
    exists|j: int| 0 <= j < i && same_cell(#[trigger] s[j], s[i])
}

/// The issues of slot `i` of layout `l`, where `bs` are the bindings.
pub open spec fn slot_issues(l: LayoutView, bs: Seq<BindingView>, raw: u128, i: int) -> Seq<IssueV> {
    let x = l.slots[i];
    only_if(
        l.rows > 0 && x.row >= l.rows,
        iss(
            ptr("/pipelineLayout/slots/"@, i as nat, "/row"@),
            "slot_out_of_bounds"@,
            "slot row "@ + decimal(x.row as nat) + " is outside layout row count "@ + decimal(
                l.rows as nat,
            ),
        ),
    ) + only_if(
        l.columns > 0 && x.column >= l.columns,
        iss(
            ptr("/pipelineLayout/slots/"@, i as nat, "/column"@),
            "slot_out_of_bounds"@,
            "slot column "@ + decimal(x.column as nat) + " is outside layout column count "@
                + decimal(l.columns as nat),
        ),
    ) + only_if(
        cell_taken_before(l.slots, i),
        iss(
            ptr("/pipelineLayout/slots/"@, i as nat, ""@),
            "duplicate_slot"@,
            "duplicate layout slot at row "@ + decimal(x.row as nat) + ", column "@ + decimal(
                x.column as nat,
            ),
        ),
    ) + only_if(
        x.pipeline_id matches Some(p) && !known(bs, raw, p),
        iss(
            ptr("/pipelineLayout/slots/"@, i as nat, "/pipelineId"@),
            "unknown_pipeline"@,
            "layout references unknown pipeline id "@ + uuid_text(x.pipeline_id->0),
        ),
    ) + only_if(
        x.pipeline_id is None && norm_out(x.output_key) is Some,
        iss(
            ptr("/pipelineLayout/slots/"@, i as nat, "/outputKey"@),
            "dangling_output_key"@,
            "layout slot has output key but no pipeline id"@,
        ),
    )
}

/// The issues of the first `n` slots.
pub open spec fn slots_issues(l: LayoutView, bs: Seq<BindingView>, raw: u128, n: int) -> Seq<IssueV>
    decreases n,
{
    if n <= 0 {
        Seq::empty()
    } else {
        slots_issues(l, bs, raw, n - 1) + slot_issues(l, bs, raw, n - 1)
    }
}

pub open spec fn layout_issues(c: ConfigView, raw: u128) -> Seq<IssueV> {
    match c.layout {
        None => Seq::empty(),
        Some(l) => only_if(
            l.rows == 0,
            iss(
                "/pipelineLayout/rows"@,
                "invalid_layout_rows"@,
                "pipeline layout rows must be at least 1"@,
            ),
        ) + only_if(
            l.columns == 0,
            iss(
                "/pipelineLayout/columns"@,
                "invalid_layout_columns"@,
                "pipeline layout columns must be at least 1"@,
            ),
        ) + slots_issues(l, c.bindings, raw, l.slots.len() as int) + only_if(
            c.active_id matches Some(a) && !known(c.bindings, raw, a),
            iss(
                "/activePipelineId"@,
                "unknown_pipeline"@,
                "active pipeline id "@ + uuid_text(c.active_id->0)
                    + " is not present in stream bindings"@,
            ),
        ),
    }
}

fn is_known_id(bs: &Vec<PipelineBinding>, raw: u128, id: u128) -> (r: bool)
    ensures
        r == known(binding_views(bs@), raw, id),
{
    if id == raw {
        return true;
    }
    let mut i: usize = 0;
    while i < bs.len()
        invariant
            i <= bs@.len(),
            forall|j: int| 0 <= j < i ==> (#[trigger] bs@[j]).pipeline_id != id,
        decreases bs@.len() - i,
    {
        if bs[i].pipeline_id == id {
            assert(binding_views(bs@)[i as int].pipeline_id == id);
            return true;
        }
        i = i + 1;
    }
    assert forall|j: int| 0 <= j < binding_views(bs@).len() implies (#[trigger] binding_views(bs@)[j]).pipeline_id != id by {
        assert(bs@[j].pipeline_id != id);
    }
    false
}

fn cell_taken(l: &PipelineLayout, i: usize) -> (r: bool)
    requires
        i < l.slots@.len(),
    ensures
        r == cell_taken_before(slot_views(l.slots@), i as int),
{
    let ghost sv = slot_views(l.slots@);
    let mut j: usize = 0;
    while j < i
        invariant
            sv == slot_views(l.slots@),
            j <= i < l.slots@.len(),
            forall|k: int| 0 <= k < j ==> !same_cell(#[trigger] sv[k], sv[i as int]),
        decreases i - j,
    {
        assert(sv[j as int] == l.slots@[j as int]@);
        assert(sv[i as int] == l.slots@[i as int]@);
        if l.slots[j].row == l.slots[i].row && l.slots[j].column == l.slots[i].column {
            assert(same_cell(sv[j as int], sv[i as int]));
            return true;
        }
        j = j + 1;
    }
    false
}

fn push_slot_issues(l: &PipelineLayout, bs: &Vec<PipelineBinding>, raw: u128, i: usize, issues: &mut Vec<ValidationIssue>)
    requires
        i < l.slots@.len(),
    ensures
        issue_views(final(issues)@) == issue_views(old(issues)@) + slot_issues(l@, binding_views(bs@), raw, i as int),
{
    let ghost start = issue_views(issues@);
    let x = &l.slots[i];
    assert(l@.slots[i as int] == x@);
    if l.rows > 0 && x.row >= l.rows {
        let mut message = owned("slot row ");
        push_decimal(&mut message, x.row as u64);
        message.append(" is outside layout row count ");
        push_decimal(&mut message, l.rows as u64);
        push_issue(issues, pointer("/pipelineLayout/slots/", i, "/row"), "slot_out_of_bounds", message);
    }
    if l.columns > 0 && x.column >= l.columns {
        let mut message = owned("slot column ");
        push_decimal(&mut message, x.column as u64);
        message.append(" is outside layout column count ");
        push_decimal(&mut message, l.columns as u64);
        push_issue(issues, pointer("/pipelineLayout/slots/", i, "/column"), "slot_out_of_bounds", message);
    }
    if cell_taken(l, i) {
        let mut message = owned("duplicate layout slot at row ");
        push_decimal(&mut message, x.row as u64);
        message.append(", column ");
        push_decimal(&mut message, x.column as u64);
        push_issue(issues, pointer("/pipelineLayout/slots/", i, ""), "duplicate_slot", message);
    }
    match x.pipeline_id {
        Some(p) => {
            if !is_known_id(bs, raw, p) {
                let mut message = owned("layout references unknown pipeline id ");
                message.append(uuid_string(p).as_str());
                push_issue(issues, pointer("/pipelineLayout/slots/", i, "/pipelineId"), "unknown_pipeline", message);
            }
        },
        None => {
            if crate::streams::outputs::normalized_output_value(&x.output_key).is_some() {
                push_issue(
                    issues,
                    pointer("/pipelineLayout/slots/", i, "/outputKey"),
                    "dangling_output_key",
                    owned("layout slot has output key but no pipeline id"),
                );
            }
        },
    }
    assert(issue_views(issues@) =~= start + slot_issues(l@, binding_views(bs@), raw, i as int));
}

pub fn validate_pipeline_layout(cfg: &PipelineConfig, raw: u128, issues: &mut Vec<ValidationIssue>)
    ensures
        issue_views(final(issues)@) == issue_views(old(issues)@) + layout_issues(cfg@, raw),
{
    let ghost start = issue_views(issues@);
    let l = match &cfg.pipeline_layout {
        None => {
            assert(issue_views(issues@) =~= start + layout_issues(cfg@, raw));
            return;
        },
        Some(l) => l,
    };
    if l.rows == 0 {
        push_issue(issues, owned("/pipelineLayout/rows"), "invalid_layout_rows", owned("pipeline layout rows must be at least 1"));
    }
    if l.columns == 0 {
        push_issue(issues, owned("/pipelineLayout/columns"), "invalid_layout_columns", owned("pipeline layout columns must be at least 1"));
    }
    let ghost head = issue_views(issues@);
    let ghost bv = binding_views(cfg.pipelines@);
    let mut i: usize = 0;
    while i < l.slots.len()
        invariant
            bv == binding_views(cfg.pipelines@),
            i <= l.slots@.len(),
            issue_views(issues@) == head + slots_issues(l@, bv, raw, i as int),
        decreases l.slots@.len() - i,
    {
        let ghost before = issue_views(issues@);
        push_slot_issues(l, &cfg.pipelines, raw, i, issues);
        assert(issue_views(issues@) =~= head + slots_issues(l@, bv, raw, i + 1));
        i = i + 1;
    }
    assert(l@.slots.len() == l.slots@.len());
    match cfg.active_pipeline_id {
        Some(a) => {
            if !is_known_id(&cfg.pipelines, raw, a) {
                let mut message = owned("active pipeline id ");
                message.append(uuid_string(a).as_str());
                message.append(" is not present in stream bindings");
                push_issue(issues, owned("/activePipelineId"), "unknown_pipeline", message);
            }
        },
        None => {},
    }
    assert(issue_views(issues@) =~= start + layout_issues(cfg@, raw));
}

// ---------------------------------------------------------------------------
// Wires.

pub open spec fn wire_issues(w: WireView, bs: Seq<BindingView>, raw: u128, i: int) -> Seq<IssueV> {
    only_if(
        !known(bs, raw, w.from.pipeline_id),
        iss(
            ptr("/pipelineWires/"@, i as nat, "/from/pipelineId"@),
            "unknown_pipeline"@,
            "wire source references unknown pipeline id "@ + uuid_text(w.from.pipeline_id),
        ),
    ) + only_if(
        !known(bs, raw, w.to.pipeline_id),
        iss(
            ptr("/pipelineWires/"@, i as nat, "/to/pipelineId"@),
            "unknown_pipeline"@,
            "wire destination references unknown pipeline id "@ + uuid_text(w.to.pipeline_id),
        ),
    )
}

pub open spec fn wires_issues(ws: Seq<WireView>, bs: Seq<BindingView>, raw: u128, n: int) -> Seq<IssueV>
    decreases n,
{
    if n <= 0 {
        Seq::empty()
    } else {
        wires_issues(ws, bs, raw, n - 1) + wire_issues(ws[n - 1], bs, raw, n - 1)
    }
}

pub fn validate_pipeline_wires(cfg: &PipelineConfig, raw: u128, issues: &mut Vec<ValidationIssue>)
    ensures
        issue_views(final(issues)@) == issue_views(old(issues)@) + wires_issues(
            cfg@.wires,
            cfg@.bindings,
            raw,
            cfg.pipeline_wires@.len() as int,
        ),
{
    let ghost start = issue_views(issues@);
    let ghost wv = wire_views(cfg.pipeline_wires@);
    let ghost bv = binding_views(cfg.pipelines@);
    let mut i: usize = 0;
    while i < cfg.pipeline_wires.len()
        invariant
            wv == wire_views(cfg.pipeline_wires@),
            bv == binding_views(cfg.pipelines@),
            i <= cfg.pipeline_wires@.len(),
            issue_views(issues@) == start + wires_issues(wv, bv, raw, i as int),
        decreases cfg.pipeline_wires@.len() - i,
    {
        let w = &cfg.pipeline_wires[i];
        assert(wv[i as int] == w@);
        let ghost before = issue_views(issues@);
        if !is_known_id(&cfg.pipelines, raw, w.from.pipeline_id) {
            let mut message = owned("wire source references unknown pipeline id ");
            message.append(uuid_string(w.from.pipeline_id).as_str());
            push_issue(issues, pointer("/pipelineWires/", i, "/from/pipelineId"), "unknown_pipeline", message);
        }
        if !is_known_id(&cfg.pipelines, raw, w.to.pipeline_id) {
            let mut message = owned("wire destination references unknown pipeline id ");
            message.append(uuid_string(w.to.pipeline_id).as_str());
            push_issue(issues, pointer("/pipelineWires/", i, "/to/pipelineId"), "unknown_pipeline", message);
        }
        assert(issue_views(issues@) =~= before + wire_issues(wv[i as int], bv, raw, i as int));
        assert(issue_views(issues@) =~= start + wires_issues(wv, bv, raw, i + 1));
        i = i + 1;
    }
}

} // verus!
