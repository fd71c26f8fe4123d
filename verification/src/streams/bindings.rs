//! The checks on pipeline bindings: no inline graphs, no pipeline bound
//! twice, every bound pipeline persisted; and which RAW output selectors
//! must name an output the RAW pipeline has.
use vstd::prelude::*;
use crate::streams::manifest::{binding_views, opt_view, BindingView, PipelineConfig};
use crate::streams::validation::{
    iss, issue_views, only_if, pointer, ptr, push_issue, uuid_string, uuid_text, IssueV,
    ValidationIssue,
};
use crate::text::owned;

verus! {

/// An earlier binding names the same pipeline as binding `i`.
pub open spec fn bound_before(bs: Seq<BindingView>, i: int) -> bool {
    exists|j: int| 0 <= j < i && (#[trigger] bs[j]).pipeline_id == bs[i].pipeline_id
}

pub open spec fn binding_issues(bs: Seq<BindingView>, i: int) -> Seq<IssueV> {
    only_if(
        bs[i].has_inline_graph,
        iss(
            ptr("/pipelines/"@, i as nat, "/pipelineGraph"@),
            "inline_pipeline_graph_forbidden"@,
            "inline pipeline graph payloads are not allowed; persist graph under /pipelines"@,
        ),
    ) + only_if(
        bound_before(bs, i),
        iss(
            ptr("/pipelines/"@, i as nat, "/pipelineId"@),
            "duplicate_pipeline_binding"@,
            "duplicate pipeline binding for pipeline id "@ + uuid_text(bs[i].pipeline_id),
        ),
    )
}

pub open spec fn bindings_issues(bs: Seq<BindingView>, n: int) -> Seq<IssueV>
    decreases n,
{
    if n <= 0 {
        Seq::empty()
    } else {
        bindings_issues(bs, n - 1) + binding_issues(bs, n - 1)
    }
}

fn bound_earlier(bs: &Vec<PipelineBinding>, i: usize) -> (r: bool)
    requires
        i < bs@.len(),
    ensures
        r == bound_before(binding_views(bs@), i as int),
{
    let ghost bv = binding_views(bs@);
    let mut j: usize = 0;
    while j < i
        invariant
            bv == binding_views(bs@),
            j <= i < bs@.len(),
            forall|k: int| 0 <= k < j ==> (#[trigger] bv[k]).pipeline_id != bv[i as int].pipeline_id,
        decreases i - j,
    {
        assert(bv[j as int] == bs@[j as int]@);
        assert(bv[i as int] == bs@[i as int]@);
        if bs[j].pipeline_id == bs[i].pipeline_id {
            return true;
        }
        j = j + 1;
    }
    false
}

use crate::streams::manifest::PipelineBinding;

/// Inline graphs and pipelines bound twice are refused.
pub fn validate_binding_entries(cfg: &PipelineConfig, issues: &mut Vec<ValidationIssue>)
    ensures
        issue_views(final(issues)@) == issue_views(old(issues)@) + bindings_issues(
            cfg@.bindings,
            cfg.pipelines@.len() as int,
        ),
{
    let ghost start = issue_views(issues@);
    let ghost bv = binding_views(cfg.pipelines@);
    let mut i: usize = 0;
    while i < cfg.pipelines.len()
        invariant
            bv == binding_views(cfg.pipelines@),
            i <= cfg.pipelines@.len(),
            issue_views(issues@) == start + bindings_issues(bv, i as int),
        decreases cfg.pipelines@.len() - i,
    {
        let b = &cfg.pipelines[i];
        assert(bv[i as int] == b@);
        let ghost before = issue_views(issues@);
        if b.has_inline_graph {
            push_issue(
                issues,
                pointer("/pipelines/", i, "/pipelineGraph"),
                "inline_pipeline_graph_forbidden",
                owned("inline pipeline graph payloads are not allowed; persist graph under /pipelines"),
            );
        }
        if bound_earlier(&cfg.pipelines, i) {
            let mut message = owned("duplicate pipeline binding for pipeline id ");
            message.append(uuid_string(b.pipeline_id).as_str());
            push_issue(issues, pointer("/pipelines/", i, "/pipelineId"), "duplicate_pipeline_binding", message);
        }
        assert(issue_views(issues@) =~= before + binding_issues(bv, i as int));
        assert(issue_views(issues@) =~= start + bindings_issues(bv, i + 1));
        i = i + 1;
    }
}

// ---------------------------------------------------------------------------
// Which pipelines must be looked up in the pipeline store.

/// A bound pipeline to look up, with the index of its first binding.
#[derive(Debug, Clone, Copy, PartialEq, Eq, Structural)]
pub struct PipelineLookup {
    pub index: usize,
    pub pipeline_id: u128,
}

/// The lookups for the first `n` bindings: each pipeline but RAW, once, at
/// its first binding.
pub open spec fn lookups(bs: Seq<BindingView>, raw: u128, n: int) -> Seq<PipelineLookup>
    decreases n,
{
    if n <= 0 {
        Seq::empty()
    } else {
        lookups(bs, raw, n - 1) + only_if(
            bs[n - 1].pipeline_id != raw && !bound_before(bs, n - 1),
            PipelineLookup { index: (n - 1) as usize, pipeline_id: bs[n - 1].pipeline_id },
        )
    }
}

/// The pipelines whose persisted graph must exist.
pub fn pipeline_lookups(cfg: &PipelineConfig, raw: u128) -> (r: Vec<PipelineLookup>)
    ensures
        r@ == lookups(cfg@.bindings, raw, cfg.pipelines@.len() as int),
{
    let ghost bv = binding_views(cfg.pipelines@);
    let mut out: Vec<PipelineLookup> = Vec::new();
    let mut i: usize = 0;
    while i < cfg.pipelines.len()
        invariant
            bv == binding_views(cfg.pipelines@),
            i <= cfg.pipelines@.len(),
            out@ == lookups(bv, raw, i as int),
        decreases cfg.pipelines@.len() - i,
    {
        let id = cfg.pipelines[i].pipeline_id;
        assert(bv[i as int].pipeline_id == id);
        let ghost before = out@;
        if id != raw && !bound_earlier(&cfg.pipelines, i) {
            out.push(PipelineLookup { index: i, pipeline_id: id });
        }
        assert(out@ =~= lookups(bv, raw, i + 1));
        i = i + 1;
    }
    out
}

/// What looking a pipeline up in the store gave.
#[derive(Debug, Clone, PartialEq, Eq)]
pub enum LookupOutcome {
    Found,
    NotFound,
    Failed { error: String },
}

pub open spec fn lookup_issue(l: PipelineLookup, o: LookupOutcome) -> Seq<IssueV> {
    match o {
        LookupOutcome::Found => Seq::empty(),
        LookupOutcome::NotFound => seq![
            iss(
                ptr("/pipelines/"@, l.index as nat, "/pipelineId"@),
                "pipeline_not_found"@,
                "pipeline "@ + uuid_text(l.pipeline_id) + " is not persisted under /pipelines"@,
            ),
        ],
        LookupOutcome::Failed { error } => seq![
            iss(
                ptr("/pipelines/"@, l.index as nat, "/pipelineId"@),
                "pipeline_lookup_failed"@,
                "failed to resolve pipeline "@ + uuid_text(l.pipeline_id) + ": "@ + error@,
            ),
        ],
    }
}

pub open spec fn lookups_issues(ls: Seq<PipelineLookup>, os: Seq<LookupOutcome>, n: int) -> Seq<IssueV>
    decreases n,
{
    if n <= 0 {
        Seq::empty()
    } else {
        lookups_issues(ls, os, n - 1) + lookup_issue(ls[n - 1], os[n - 1])
    }
}

/// The issues that the lookups' outcomes give, one outcome per lookup.
pub fn validate_lookup_outcomes(ls: &Vec<PipelineLookup>, os: &Vec<LookupOutcome>, issues: &mut Vec<ValidationIssue>)
    requires
        ls@.len() == os@.len(),
    ensures
        issue_views(final(issues)@) == issue_views(old(issues)@) + lookups_issues(ls@, os@, ls@.len() as int),
{
    let ghost start = issue_views(issues@);
    let mut i: usize = 0;
    while i < ls.len()
        invariant
            ls@.len() == os@.len(),
            i <= ls@.len(),
            issue_views(issues@) == start + lookups_issues(ls@, os@, i as int),
        decreases ls@.len() - i,
    {
        let l = ls[i];
        let ghost before = issue_views(issues@);
        match &os[i] {
            LookupOutcome::Found => {},
            LookupOutcome::NotFound => {
                let mut message = owned("pipeline ");
                message.append(uuid_string(l.pipeline_id).as_str());
                message.append(" is not persisted under /pipelines");
                push_issue(issues, pointer("/pipelines/", l.index, "/pipelineId"), "pipeline_not_found", message);
            },
            LookupOutcome::Failed { error } => {
                let mut message = owned("failed to resolve pipeline ");
                message.append(uuid_string(l.pipeline_id).as_str());
                message.append(": ");
                message.append(error.as_str());
                push_issue(issues, pointer("/pipelines/", l.index, "/pipelineId"), "pipeline_lookup_failed", message);
            },
        }
        assert(issue_views(issues@) =~= before + lookup_issue(ls@[i as int], os@[i as int]));
        assert(issue_views(issues@) =~= start + lookups_issues(ls@, os@, i + 1));
        i = i + 1;
    }
}

// ---------------------------------------------------------------------------
// RAW output selectors.

/// A selector of a RAW pipeline output, where it stands and what it is called.
#[derive(Debug, Clone, PartialEq, Eq)]
pub struct RawOutputField {
    pub path: String,
    pub label: &'static str,
    pub value: Option<String>,
}

pub ghost struct RawFieldV {
    pub path: Seq<char>,
    pub label: Seq<char>,
    pub value: Option<Seq<char>>,
}

impl View for RawOutputField {
    type V = RawFieldV;

    open spec fn view(&self) -> RawFieldV {
        RawFieldV { path: self.path@, label: self.label@, value: opt_view(self.value) }
    }
}

pub open spec fn field_views(s: Seq<RawOutputField>) -> Seq<RawFieldV> {
    s.map_values(|x: RawOutputField| x@)
}

pub open spec fn binding_fields(bs: Seq<BindingView>, raw: u128, n: int) -> Seq<RawFieldV>
    decreases n,
{
    if n <= 0 {
        Seq::empty()
    } else {
        binding_fields(bs, raw, n - 1) + only_if(
            bs[n - 1].pipeline_id == raw,
            RawFieldV {
                path: ptr("/pipelines/"@, (n - 1) as nat, "/pipelineOutput"@),
                label: "pipeline output"@,
                value: bs[n - 1].pipeline_output,
            },
        )
    }
}

pub open spec fn slot_fields(s: Seq<crate::streams::manifest::SlotView>, raw: u128, n: int) -> Seq<RawFieldV>
    decreases n,
{
    if n <= 0 {
        Seq::empty()
    } else {
        slot_fields(s, raw, n - 1) + only_if(
            s[n - 1].pipeline_id == Some(raw),
            RawFieldV {
                path: ptr("/pipelineLayout/slots/"@, (n - 1) as nat, "/outputKey"@),
                label: "layout output"@,
                value: s[n - 1].output_key,
            },
        )
    }
}

pub open spec fn wire_fields(w: Seq<crate::streams::manifest::WireView>, raw: u128, n: int) -> Seq<RawFieldV>
    decreases n,
{
    if n <= 0 {
        Seq::empty()
    } else {
        wire_fields(w, raw, n - 1) + if w[n - 1].from.pipeline_id == raw {
            seq![
                RawFieldV {
                    path: ptr("/pipelineWires/"@, (n - 1) as nat, "/from/outputKey"@),
                    label: "wire output selector"@,
                    value: w[n - 1].from.output_key,
                },
                RawFieldV {
                    path: ptr("/pipelineWires/"@, (n - 1) as nat, "/from/port"@),
                    label: "wire output port"@,
                    value: w[n - 1].from.port,
                },
            ]
        } else {
            Seq::empty()
        }
    }
}

/// Every selector that names an output of the RAW pipeline, in the order
/// they are checked: the active selection, the bindings, the layout slots,
/// the wire sources.
pub open spec fn raw_fields(c: crate::streams::manifest::ConfigView, raw: u128) -> Seq<RawFieldV> {
    only_if(
        c.active_id == Some(raw),
        RawFieldV {
            path: "/activePipelineOutput"@,
            label: "active pipeline output"@,
            value: c.active_output,
        },
    ) + binding_fields(c.bindings, raw, c.bindings.len() as int) + match c.layout {
        Some(l) => slot_fields(l.slots, raw, l.slots.len() as int),
        None => Seq::empty(),
    } + wire_fields(c.wires, raw, c.wires.len() as int)
}

fn push_field(out: &mut Vec<RawOutputField>, path: String, label: &'static str, value: &Option<String>)
    ensures
        field_views(final(out)@) == field_views(old(out)@).push(RawFieldV { path: path@, label: label@, value: opt_view(*value) }),
{
    out.push(RawOutputField { path, label, value: crate::streams::outputs::clone_opt(value) });
    assert(field_views(out@) =~= field_views(old(out)@).push(RawFieldV { path: path@, label: label@, value: opt_view(*value) }));
}

/// Lists the RAW output selectors whose values the engine must accept.
pub fn raw_output_fields(cfg: &PipelineConfig, raw: u128) -> (r: Vec<RawOutputField>)
    ensures
        field_views(r@) == raw_fields(cfg@, raw),
{
    let mut out: Vec<RawOutputField> = Vec::new();
    if cfg.active_pipeline_id == Some(raw) {
        push_field(&mut out, owned("/activePipelineOutput"), "active pipeline output", &cfg.active_pipeline_output);
    }
    let ghost head = field_views(out@);
    let ghost bv = binding_views(cfg.pipelines@);
    let mut i: usize = 0;
    while i < cfg.pipelines.len()
        invariant
            bv == binding_views(cfg.pipelines@),
            i <= cfg.pipelines@.len(),
            field_views(out@) == head + binding_fields(bv, raw, i as int),
        decreases cfg.pipelines@.len() - i,
    {
        let b = &cfg.pipelines[i];
        assert(bv[i as int] == b@);
        if b.pipeline_id == raw {
            push_field(&mut out, pointer("/pipelines/", i, "/pipelineOutput"), "pipeline output", &b.pipeline_output);
        }
        assert(field_views(out@) =~= head + binding_fields(bv, raw, i + 1));
        i = i + 1;
    }
    let ghost mid = field_views(out@);
    match &cfg.pipeline_layout {
        Some(l) => {
            let ghost sv = crate::streams::manifest::slot_views(l.slots@);
            let mut j: usize = 0;
            while j < l.slots.len()
                invariant
                    sv == crate::streams::manifest::slot_views(l.slots@),
                    j <= l.slots@.len(),
                    field_views(out@) == mid + slot_fields(sv, raw, j as int),
                decreases l.slots@.len() - j,
            {
                let x = &l.slots[j];
                assert(sv[j as int] == x@);
                if x.pipeline_id == Some(raw) {
                    push_field(&mut out, pointer("/pipelineLayout/slots/", j, "/outputKey"), "layout output", &x.output_key);
                }
                assert(field_views(out@) =~= mid + slot_fields(sv, raw, j + 1));
                j = j + 1;
            }
        },
        None => {},
    }
    let ghost tail = field_views(out@);
    let ghost wv = crate::streams::manifest::wire_views(cfg.pipeline_wires@);
    let mut k: usize = 0;
    while k < cfg.pipeline_wires.len()
        invariant
            wv == crate::streams::manifest::wire_views(cfg.pipeline_wires@),
            k <= cfg.pipeline_wires@.len(),
            field_views(out@) == tail + wire_fields(wv, raw, k as int),
        decreases cfg.pipeline_wires@.len() - k,
    {
        let w = &cfg.pipeline_wires[k];
        assert(wv[k as int] == w@);
        if w.from.pipeline_id == raw {
            push_field(&mut out, pointer("/pipelineWires/", k, "/from/outputKey"), "wire output selector", &w.from.output_key);
            push_field(&mut out, pointer("/pipelineWires/", k, "/from/port"), "wire output port", &w.from.port);
        }
        assert(field_views(out@) =~= tail + wire_fields(wv, raw, k + 1));
        k = k + 1;
    }
    assert(field_views(out@) =~= raw_fields(cfg@, raw));
    out
}

pub open spec fn raw_field_issues(fs: Seq<RawFieldV>, errs: Seq<Option<String>>, n: int) -> Seq<IssueV>
    decreases n,
{
    if n <= 0 {
        Seq::empty()
    } else {
        raw_field_issues(fs, errs, n - 1) + match errs[n - 1] {
            Some(e) => seq![
                iss(fs[n - 1].path, "unsupported_raw_output"@, fs[n - 1].label + " is invalid: "@ + e@),
            ],
            None => Seq::empty(),
        }
    }
}

/// The issues for the RAW selectors the engine refused, one verdict (the
/// engine's error, if any) per field.
pub fn validate_raw_output_verdicts(fields: &Vec<RawOutputField>, errs: &Vec<Option<String>>, issues: &mut Vec<ValidationIssue>)
    requires
        fields@.len() == errs@.len(),
    ensures
        issue_views(final(issues)@) == issue_views(old(issues)@) + raw_field_issues(field_views(fields@), errs@, fields@.len() as int),
{
    let ghost start = issue_views(issues@);
    let ghost fv = field_views(fields@);
    let mut i: usize = 0;
    while i < fields.len()
        invariant
            fv == field_views(fields@),
            fields@.len() == errs@.len(),
            i <= fields@.len(),
            issue_views(issues@) == start + raw_field_issues(fv, errs@, i as int),
        decreases fields@.len() - i,
    {
        assert(fv[i as int] == fields@[i as int]@);
        let ghost before = issue_views(issues@);
        match &errs[i] {
            Some(e) => {
                let mut message = owned(fields[i].label);
                message.append(" is invalid: ");
                message.append(e.as_str());
                let path = fields[i].path.clone();
                push_issue(issues, path, "unsupported_raw_output", message);
            },
            None => {},
        }
        assert(issue_views(issues@) =~= start + raw_field_issues(fv, errs@, i + 1));
        i = i + 1;
    }
}

} // verus!
