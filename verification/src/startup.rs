//! Startup: pruning corrupt stored state, reading the startup preset, and
//! the rules by which its pipelines and streams are seeded.
use vstd::prelude::*;
use crate::streams::manifest::opt_view;
use crate::streams::outputs::{norm_out, normalized_output_value};
use crate::text::{lower_seq, owned, seq_eq, to_lower, trim, trim_str};

verus! {

/// The schema version a startup preset is written in.
pub const CURRENT_STARTUP_PRESET_SCHEMA_VERSION: u32 = 1;

/// The marker written once a startup preset was consumed.
pub fn startup_marker_name() -> (r: &'static str)
    ensures
        r@ == ".startup-preset-applied-v1.json"@,
{
    ".startup-preset-applied-v1.json"
}

// ---------------------------------------------------------------------------
// File names.

pub open spec fn is_json_name(name: Seq<char>) -> bool {
    crate::storage::paths::extension(name) == Some("json"@)
}

fn json_name(name: &str) -> (r: bool)
    ensures
        r == is_json_name(name@),
{
    proof {
        reveal_strlit("json");
    }
    match crate::storage::paths::path_extension(name) {
        Some(e) => seq_eq(e.as_str(), "json"),
        None => false,
    }
}

/// What the startup rules read of a directory entry.
#[derive(Debug, Clone, PartialEq, Eq)]
pub struct StateEntry {
    pub name: String,
    pub is_file: bool,
    pub len: u64,
}

/// A stored document that is a file named `*.json`.
pub fn is_json_document(entry: &StateEntry) -> (r: bool)
    ensures
        r == (entry.is_file && is_json_name(entry.name@)),
{
    entry.is_file && json_name(entry.name.as_str())
}

/// An empty `*.json` file is corrupt state and is removed.
pub fn is_corrupt_state_file(entry: &StateEntry) -> (r: bool)
    ensures
        r == (entry.is_file && is_json_name(entry.name@) && entry.len == 0),
{
    entry.is_file && entry.len == 0 && json_name(entry.name.as_str())
}

/// The indices of the entries to remove, in order.
pub open spec fn corrupt_entries(es: Seq<StateEntry>) -> Seq<usize>
    decreases es.len(),
{
    if es.len() == 0 {
        Seq::empty()
    } else {
        let p = corrupt_entries(es.drop_last());
        let e = es.last();
        if e.is_file && is_json_name(e.name@) && e.len == 0 {
            p.push((es.len() - 1) as usize)
        } else {
            p
        }
    }
}

pub fn corrupt_state_files(entries: &Vec<StateEntry>) -> (r: Vec<usize>)
    ensures
        r@ == corrupt_entries(entries@),
{
    let mut out: Vec<usize> = Vec::new();
    let mut i: usize = 0;
    while i < entries.len()
        invariant
            i <= entries@.len(),
            out@ == corrupt_entries(entries@.subrange(0, i as int)),
        decreases entries@.len() - i,
    {
        assert(entries@.subrange(0, i + 1).drop_last() =~= entries@.subrange(0, i as int));
        assert(entries@.subrange(0, i + 1).last() == entries@[i as int]);
        if is_corrupt_state_file(&entries[i]) {
            out.push(i);
        }
        i = i + 1;
    }
    assert(entries@.subrange(0, entries@.len() as int) =~= entries@);
    out
}

/// The number of stored pipeline documents among the entries.
pub open spec fn document_count(es: Seq<StateEntry>) -> nat
    decreases es.len(),
{
    if es.len() == 0 {
        0
    } else {
        document_count(es.drop_last()) + if es.last().is_file && is_json_name(es.last().name@) {
            1nat
        } else {
            0nat
        }
    }
}

pub fn pipeline_document_count(entries: &Vec<StateEntry>) -> (r: usize)
    ensures
        r == document_count(entries@),
{
    let mut n: usize = 0;
    let mut i: usize = 0;
    while i < entries.len()
        invariant
            i <= entries@.len(),
            n == document_count(entries@.subrange(0, i as int)),
            n <= i,
        decreases entries@.len() - i,
    {
        assert(entries@.subrange(0, i + 1).drop_last() =~= entries@.subrange(0, i as int));
        assert(entries@.subrange(0, i + 1).last() == entries@[i as int]);
        if is_json_document(&entries[i]) {
            n = n + 1;
        }
        i = i + 1;
    }
    assert(entries@.subrange(0, entries@.len() as int) =~= entries@);
    n
}

// ---------------------------------------------------------------------------
// The startup reconciliation.

/// What startup reconciliation removed.
#[derive(Debug, Clone, Copy, PartialEq, Eq, Structural)]
pub struct StartupReconcileReport {
    pub pipelines_pruned: usize,
    pub streams_pruned: usize,
    pub zero_byte_marker_removed: bool,
    pub startup_marker_cleared_after_prune: bool,
}

impl StartupReconcileReport {
    pub open spec fn pruned_any(&self) -> bool {
        self.pipelines_pruned > 0 || self.streams_pruned > 0
    }

    pub fn pruned_any_state(&self) -> (r: bool)
        ensures
            r == self.pruned_any(),
    {
        self.pipelines_pruned > 0 || self.streams_pruned > 0
    }

    pub fn changed(&self) -> (r: bool)
        ensures
            r == (self.pruned_any() || self.zero_byte_marker_removed || self.startup_marker_cleared_after_prune),
    {
        self.pruned_any_state() || self.zero_byte_marker_removed || self.startup_marker_cleared_after_prune
    }
}

/// The report of a reconciliation: once corrupt pipelines or streams were
/// pruned, the preset marker is cleared too, so that the preset applies
/// again.
pub fn reconcile_report(zero_byte_marker_removed: bool, pipelines_pruned: usize, streams_pruned: usize) -> (r: StartupReconcileReport)
    ensures
        r.pipelines_pruned == pipelines_pruned,
        r.streams_pruned == streams_pruned,
        r.zero_byte_marker_removed == zero_byte_marker_removed,
        r.startup_marker_cleared_after_prune == (pipelines_pruned > 0 || streams_pruned > 0),
{
    StartupReconcileReport {
        pipelines_pruned,
        streams_pruned,
        zero_byte_marker_removed,
        startup_marker_cleared_after_prune: pipelines_pruned > 0 || streams_pruned > 0,
    }
}

// ---------------------------------------------------------------------------
// Reading the startup preset.

/// Which format a preset file is read in first: its extension's, else
/// JSON; the other format is tried when the first fails.
#[derive(Debug, Clone, Copy, PartialEq, Eq, Structural)]
pub enum PresetDecodeOrder {
    TomlFirst,
    JsonFirst,
    /// No known extension: JSON, then TOML, and TOML's error is reported.
    Unknown,
}

pub open spec fn decode_order_for(name: Seq<char>) -> PresetDecodeOrder {
    match crate::storage::paths::extension(name) {
        Some(e) => if lower_seq(e) == "toml"@ {
            PresetDecodeOrder::TomlFirst
        } else if lower_seq(e) == "json"@ {
            PresetDecodeOrder::JsonFirst
        } else {
            PresetDecodeOrder::Unknown
        },
        None => PresetDecodeOrder::Unknown,
    }
}

pub fn preset_decode_order(name: &str) -> (r: PresetDecodeOrder)
    ensures
        r == decode_order_for(name@),
{
    proof {
        reveal_strlit("toml");
        reveal_strlit("json");
    }
    match crate::storage::paths::path_extension(name) {
        Some(e) => {
            let l = to_lower(e.as_str());
            if seq_eq(l.as_str(), "toml") {
                PresetDecodeOrder::TomlFirst
            } else if seq_eq(l.as_str(), "json") {
                PresetDecodeOrder::JsonFirst
            } else {
                PresetDecodeOrder::Unknown
            }
        },
        None => PresetDecodeOrder::Unknown,
    }
}

/// The error when both formats failed: both errors, the first tried first,
/// for a known extension; the second's alone otherwise.
pub open spec fn decode_failure_text(order: PresetDecodeOrder, first_err: Seq<char>, second_err: Seq<char>) -> Seq<char> {
    match order {
        PresetDecodeOrder::TomlFirst => "toml parse error: "@ + first_err + "; json parse error: "@ + second_err,
        PresetDecodeOrder::JsonFirst => "json parse error: "@ + first_err + "; toml parse error: "@ + second_err,
        PresetDecodeOrder::Unknown => second_err,
    }
}

pub fn decode_failure_message(order: PresetDecodeOrder, first_err: &str, second_err: &str) -> (r: String)
    ensures
        r@ == decode_failure_text(order, first_err@, second_err@),
{
    match order {
        PresetDecodeOrder::TomlFirst => {
            let mut out = owned("toml parse error: ");
            out.append(first_err);
            out.append("; json parse error: ");
            out.append(second_err);
            out
        },
        PresetDecodeOrder::JsonFirst => {
            let mut out = owned("json parse error: ");
            out.append(first_err);
            out.append("; toml parse error: ");
            out.append(second_err);
            out
        },
        PresetDecodeOrder::Unknown => owned(second_err),
    }
}

/// What startup does with the preset.
#[derive(Debug, Clone, Copy, PartialEq, Eq, Structural)]
pub enum PresetAction {
    /// The preset was consumed before, or there is none.
    Nothing,
    /// Record that the preset was empty.
    MarkEmpty,
    /// Record that stored state made the preset moot.
    MarkExistingState,
    /// Seed the preset's pipelines and streams.
    Apply,
}

pub open spec fn preset_action_for(
    marker_exists: bool,
    preset_found: bool,
    preset_empty: bool,
    stored_streams: usize,
    stored_pipelines: usize,
) -> PresetAction {
    if marker_exists || !preset_found {
        PresetAction::Nothing
    } else if preset_empty {
        PresetAction::MarkEmpty
    } else if stored_streams > 0 || stored_pipelines > 0 {
        PresetAction::MarkExistingState
    } else {
        PresetAction::Apply
    }
}

pub fn startup_preset_action(
    marker_exists: bool,
    preset_found: bool,
    preset_empty: bool,
    stored_streams: usize,
    stored_pipelines: usize,
) -> (r: PresetAction)
    ensures
        r == preset_action_for(marker_exists, preset_found, preset_empty, stored_streams, stored_pipelines),
{
    if marker_exists || !preset_found {
        PresetAction::Nothing
    } else if preset_empty {
        PresetAction::MarkEmpty
    } else if stored_streams > 0 || stored_pipelines > 0 {
        PresetAction::MarkExistingState
    } else {
        PresetAction::Apply
    }
}

/// The status written in the marker for each action that writes one.
pub fn marker_status(action: PresetAction) -> (r: Option<&'static str>)
    ensures
        match action {
            PresetAction::Nothing => r is None,
            PresetAction::MarkEmpty => r matches Some(s) && s@ == "skipped-empty"@,
            PresetAction::MarkExistingState => r matches Some(s) && s@ == "skipped-existing-state"@,
            PresetAction::Apply => r matches Some(s) && s@ == "applied"@,
        },
{
    match action {
        PresetAction::Nothing => None,
        PresetAction::MarkEmpty => Some("skipped-empty"),
        PresetAction::MarkExistingState => Some("skipped-existing-state"),
        PresetAction::Apply => Some("applied"),
    }
}

// ---------------------------------------------------------------------------
// Seeding pipelines.

/// What the seeding rules read of a preset pipeline.
#[derive(Debug, Clone, PartialEq, Eq)]
pub struct PipelinePresetFacts {
    pub id: u128,
    pub name: Option<String>,
    pub has_graph: bool,
    pub template_id: Option<String>,
}

/// A pipeline's display name: its trimmed name, else its trimmed template
/// id; blank counts as absent.
pub open spec fn pipeline_display_name(p: PipelinePresetFacts) -> Option<Seq<char>> {
    if norm_out(opt_view(p.name)) is Some {
        norm_out(opt_view(p.name))
    } else {
        norm_out(opt_view(p.template_id))
    }
}

pub fn preset_pipeline_name(p: &PipelinePresetFacts) -> (r: Option<String>)
    ensures
        opt_view(r) == pipeline_display_name(*p),
{
    let n = normalized_output_value(&p.name);
    if n.is_some() {
        n
    } else {
        normalized_output_value(&p.template_id)
    }
}

/// Where a preset pipeline's graph comes from.
#[derive(Debug, Clone, PartialEq, Eq)]
pub enum GraphSource {
    /// The graph given inline (it wins over a template).
    Inline,
    /// The named template, trimmed.
    Template { template_id: String },
}

pub fn preset_graph_source(p: &PipelinePresetFacts) -> (r: Result<GraphSource, String>)
    ensures
        p.has_graph ==> r == Ok::<GraphSource, String>(GraphSource::Inline),
        !p.has_graph ==> match norm_out(opt_view(p.template_id)) {
            Some(t) => r matches Ok(GraphSource::Template { template_id }) && template_id@ == t,
            None => r matches Err(e) && e@ == "pipeline preset requires either graph or templateId"@,
        },
{
    if p.has_graph {
        return Ok(GraphSource::Inline);
    }
    match normalized_output_value(&p.template_id) {
        Some(t) => Ok(GraphSource::Template { template_id: t }),
        None => Err(owned("pipeline preset requires either graph or templateId")),
    }
}

/// The error when a template does not load.
pub fn template_load_error(template_id: &str, err: &str) -> (r: String)
    ensures
        r@ == "failed to load template "@ + template_id@ + ": "@ + err@,
{
    let mut out = owned("failed to load template ");
    out.append(template_id);
    out.append(": ");
    out.append(err);
    out
}

/// The preset pipelines seeded: the first of each id, in order.
pub open spec fn first_of_each_id(ps: Seq<u128>) -> Seq<usize>
    decreases ps.len(),
{
    if ps.len() == 0 {
        Seq::empty()
    } else {
        let p = first_of_each_id(ps.drop_last());
        if ps.drop_last().contains(ps.last()) {
            p
        } else {
            p.push((ps.len() - 1) as usize)
        }
    }
}

fn seen_before(ids: &Vec<u128>, n: usize, x: u128) -> (r: bool)
    requires
        n <= ids@.len(),
    ensures
        r == ids@.subrange(0, n as int).contains(x),
{
    let mut i: usize = 0;
    while i < n
        invariant
            n <= ids@.len(),
            i <= n,
            forall|j: int| 0 <= j < i ==> ids@[j] != x,
        decreases n - i,
    {
        if ids[i] == x {
            assert(ids@.subrange(0, n as int)[i as int] == x);
            return true;
        }
        i = i + 1;
    }
    assert forall|j: int| 0 <= j < n implies ids@.subrange(0, n as int)[j] != x by {}
    false
}

pub fn pipelines_to_seed(ids: &Vec<u128>) -> (r: Vec<usize>)
    ensures
        r@ == first_of_each_id(ids@),
{
    let mut out: Vec<usize> = Vec::new();
    let mut i: usize = 0;
    while i < ids.len()
        invariant
            i <= ids@.len(),
            out@ == first_of_each_id(ids@.subrange(0, i as int)),
        decreases ids@.len() - i,
    {
        let ghost pre = ids@.subrange(0, i + 1);
        assert(pre.drop_last() =~= ids@.subrange(0, i as int));
        if !seen_before(ids, i, ids[i]) {
            out.push(i);
        }
        i = i + 1;
    }
    assert(ids@.subrange(0, ids@.len() as int) =~= ids@);
    out
}

// ---------------------------------------------------------------------------
// Seeding streams.

/// What the seeding rules read of a preset stream.
#[derive(Debug, Clone, PartialEq, Eq)]
pub struct StreamPresetFacts {
    pub camera_id: String,
    pub stream_id: Option<u128>,
    pub manifest_id: Option<u128>,
}

/// A preset stream to seed: its index, its trimmed camera id, the id it
/// is stored under (the preset's stream id over the manifest's), and
/// whether an earlier preset used the same camera id (the later one then
/// overwrites it).
#[derive(Debug, Clone, PartialEq, Eq)]
pub struct StreamSeed {
    pub index: usize,
    pub camera_id: String,
    pub stream_id: Option<u128>,
    pub duplicate: bool,
}

pub open spec fn seed_of(p: StreamPresetFacts, index: int, duplicate: bool) -> (usize, Seq<char>, Option<u128>, bool) {
    (
        index as usize,
        trim(p.camera_id@),
        if p.stream_id is Some {
            p.stream_id
        } else {
            p.manifest_id
        },
        duplicate,
    )
}

/// The trimmed camera ids of the presets before `n` that are seeded.
pub open spec fn seeded_ids(ps: Seq<StreamPresetFacts>, n: int) -> Seq<Seq<char>>
    decreases n,
{
    if n <= 0 || n > ps.len() {
        Seq::empty()
    } else {
        let p = seeded_ids(ps, n - 1);
        let c = trim(ps[n - 1].camera_id@);
        if c.len() == 0 {
            p
        } else {
            p.push(c)
        }
    }
}

/// The presets seeded, in order: those with a non-blank camera id.
pub open spec fn stream_seeds(ps: Seq<StreamPresetFacts>, n: int) -> Seq<(usize, Seq<char>, Option<u128>, bool)>
    decreases n,
{
    if n <= 0 || n > ps.len() {
        Seq::empty()
    } else {
        let p = stream_seeds(ps, n - 1);
        let c = trim(ps[n - 1].camera_id@);
        if c.len() == 0 {
            p
        } else {
            p.push(seed_of(ps[n - 1], n - 1, seeded_ids(ps, n - 1).contains(c)))
        }
    }
}

pub open spec fn seed_view(s: StreamSeed) -> (usize, Seq<char>, Option<u128>, bool) {
    (s.index, s.camera_id@, s.stream_id, s.duplicate)
}

fn holds_text(v: &Vec<String>, k: &str) -> (r: bool)
    ensures
        r == crate::text::views(v@).contains(k@),
{
    let ghost vv = crate::text::views(v@);
    let mut i: usize = 0;
    while i < v.len()
        invariant
            vv == crate::text::views(v@),
            i <= v@.len(),
            forall|j: int| 0 <= j < i ==> vv[j] != k@,
        decreases v@.len() - i,
    {
        assert(vv[i as int] == v@[i as int]@);
        if seq_eq(v[i].as_str(), k) {
            return true;
        }
        i = i + 1;
    }
    false
}

pub fn streams_to_seed(presets: &Vec<StreamPresetFacts>) -> (r: Vec<StreamSeed>)
    ensures
        r@.map_values(|s: StreamSeed| seed_view(s)) == stream_seeds(presets@, presets@.len() as int),
{
    let mut out: Vec<StreamSeed> = Vec::new();
    let mut seen: Vec<String> = Vec::new();
    let mut i: usize = 0;
    while i < presets.len()
        invariant
            i <= presets@.len(),
            out@.map_values(|s: StreamSeed| seed_view(s)) == stream_seeds(presets@, i as int),
            crate::text::views(seen@) == seeded_ids(presets@, i as int),
        decreases presets@.len() - i,
    {
        let p = &presets[i];
        let c = trim_str(p.camera_id.as_str());
        let ghost before = out@.map_values(|s: StreamSeed| seed_view(s));
        let ghost seen_before = crate::text::views(seen@);
        if c.unicode_len() > 0 {
            let duplicate = holds_text(&seen, c);
            let id = if p.stream_id.is_some() {
                p.stream_id
            } else {
                p.manifest_id
            };
            let s = StreamSeed { index: i, camera_id: owned(c), stream_id: id, duplicate };
            let ghost sv = seed_view(s);
            out.push(s);
            seen.push(owned(c));
            assert(out@.map_values(|s: StreamSeed| seed_view(s)) =~= before.push(sv));
            assert(crate::text::views(seen@) =~= seen_before.push(c@));
        }
        i = i + 1;
    }
    out
}

/// The startup preset is applied only once and only onto an empty store:
/// never when its marker exists or it was not found, never when it is
/// empty, and never over stored streams or stored pipelines; a non-empty
/// preset found for the first time is applied exactly when nothing is
/// stored, and otherwise stored state wins and is marked; an empty preset
/// is only marked as such.
pub proof fn law_preset_applied_only_onto_empty_store(
    marker_exists: bool,
    preset_found: bool,
    preset_empty: bool,
    stored_streams: usize,
    stored_pipelines: usize,
)
    ensures
        (preset_action_for(marker_exists, preset_found, preset_empty, stored_streams, stored_pipelines)
            == PresetAction::Apply) <==> (!marker_exists && preset_found && !preset_empty && stored_streams == 0
            && stored_pipelines == 0),
        (!marker_exists && preset_found && !preset_empty && (stored_streams > 0 || stored_pipelines > 0))
            ==> preset_action_for(marker_exists, preset_found, preset_empty, stored_streams, stored_pipelines)
            == PresetAction::MarkExistingState,
        (marker_exists || !preset_found) ==> preset_action_for(
            marker_exists,
            preset_found,
            preset_empty,
            stored_streams,
            stored_pipelines,
        ) == PresetAction::Nothing,
        (!marker_exists && preset_found && preset_empty) ==> preset_action_for(
            marker_exists,
            preset_found,
            preset_empty,
            stored_streams,
            stored_pipelines,
        ) == PresetAction::MarkEmpty,
{
}

} // verus!
