//! The rules of pipeline profiling: when pipeline metrics are still empty
//! and need an output pulled first, which output that is, the profile
//! window, which flamegraph files may be served, and the smoke test that
//! watches a running pipeline for node errors.
use vstd::prelude::*;
use crate::streams::grid::{preferred_output, preferred_pipeline_output};
use crate::streams::manifest::{opt_view, PipelineConfig};
use crate::streams::outputs::{norm_out, normalized_output_value};
use crate::text::{starts_with, starts_with_str};

verus! {

/// What the priming rule reads of a pipeline's metrics: how many nodes,
/// groups and edges they hold (none for a missing map) and whether a
/// flamegraph is attached.
#[derive(Debug, Clone, Copy, PartialEq, Eq, Structural)]
pub struct PipelineMetricsShape {
    pub node_count: usize,
    pub group_count: Option<usize>,
    pub edge_count: Option<usize>,
    pub has_flamegraph: bool,
}

/// Pipeline metrics that exist but hold nothing yet: no node, no group, no
/// edge and no flamegraph.
pub open spec fn needs_priming(pipeline: Option<PipelineMetricsShape>) -> bool {
    pipeline matches Some(p) && p.node_count == 0 && (p.group_count is None || p.group_count == Some(0usize))
        && (p.edge_count is None || p.edge_count == Some(0usize)) && !p.has_flamegraph
}

pub fn pipeline_metrics_need_host_output_priming(pipeline: Option<PipelineMetricsShape>) -> (r: bool)
    ensures
        r == needs_priming(pipeline),
{
    match pipeline {
        Some(p) => {
            p.node_count == 0 && (p.group_count.is_none() || p.group_count == Some(0)) && (p.edge_count.is_none()
                || p.edge_count == Some(0)) && !p.has_flamegraph
        },
        None => false,
    }
}

/// The output pulled to make metrics flow: the active pipeline's preferred
/// output, else the trimmed active output.
pub open spec fn metrics_output(c: crate::streams::manifest::ConfigView) -> Option<Seq<char>> {
    match c.active_id {
        Some(p) => if preferred_output(c, p) is Some {
            preferred_output(c, p)
        } else {
            norm_out(c.active_output)
        },
        None => norm_out(c.active_output),
    }
}

pub fn active_pipeline_output_for_metrics(cfg: &PipelineConfig) -> (r: Option<String>)
    ensures
        opt_view(r) == metrics_output(cfg@),
{
    if let Some(p) = cfg.active_pipeline_id {
        let o = preferred_pipeline_output(cfg, p);
        if o.is_some() {
            return o;
        }
    }
    normalized_output_value(&cfg.active_pipeline_output)
}

/// The profile window: a warmup of at most 30 s (500 ms unless given) and
/// a capture of 250 ms to 120 s (5 s unless given).
pub open spec fn profile_window_for(warmup_ms: Option<u64>, duration_ms: Option<u64>) -> (u64, u64) {
    let w = match warmup_ms {
        Some(v) => v,
        None => 500,
    };
    let d = match duration_ms {
        Some(v) => v,
        None => 5_000,
    };
    (
        if w > 30_000 {
            30_000
        } else {
            w
        },
        if d < 250 {
            250
        } else if d > 120_000 {
            120_000
        } else {
            d
        },
    )
}

pub fn profile_window(warmup_ms: Option<u64>, duration_ms: Option<u64>) -> (r: (u64, u64))
    ensures
        r == profile_window_for(warmup_ms, duration_ms),
{
    let w = match warmup_ms {
        Some(v) => v,
        None => 500,
    };
    let d = match duration_ms {
        Some(v) => v,
        None => 5_000,
    };
    (
        if w > 30_000 {
            30_000
        } else {
            w
        },
        if d < 250 {
            250
        } else if d > 120_000 {
            120_000
        } else {
            d
        },
    )
}

/// The switches of a profile run, each on unless turned off: perf
/// counters, a flamegraph, and a metrics reset first.
pub fn profile_switch(requested: Option<bool>) -> (r: bool)
    ensures
        r == match requested {
            Some(b) => b,
            None => true,
        },
{
    match requested {
        Some(b) => b,
        None => true,
    }
}

/// Why a flamegraph file is not served.
#[derive(Debug, Clone, Copy, PartialEq, Eq, Structural)]
pub enum FlamegraphRefusal {
    NotAbsolute,
    NotSvg,
    NotAllowed,
}

/// The directories flamegraphs may be read from.
pub open spec fn allowed_flamegraph_dir(path: Seq<char>) -> bool {
    ||| starts_with(path, "/tmp"@)
    ||| starts_with(path, "/var/tmp"@)
    ||| starts_with(path, "/run"@)
    ||| starts_with(path, "/var/lib/helios"@)
    ||| starts_with(path, "/var/lib/helios/api-data"@)
    ||| starts_with(path, "/var/log/helios"@)
}

/// A flamegraph is served only from an absolute `.svg` path under one of
/// the allowed directories.
pub open spec fn flamegraph_check(path: Seq<char>) -> Result<(), FlamegraphRefusal> {
    if !(path.len() > 0 && path[0] == '/') {
        Err(FlamegraphRefusal::NotAbsolute)
    } else if crate::storage::paths::extension(path) != Some("svg"@) {
        Err(FlamegraphRefusal::NotSvg)
    } else if !allowed_flamegraph_dir(path) {
        Err(FlamegraphRefusal::NotAllowed)
    } else {
        Ok(())
    }
}

pub fn check_flamegraph_path(path: &str) -> (r: Result<(), FlamegraphRefusal>)
    ensures
        r == flamegraph_check(path@),
{
    proof {
        reveal_strlit("svg");
    }
    if !(path.unicode_len() > 0 && path.get_char(0) == '/') {
        return Err(FlamegraphRefusal::NotAbsolute);
    }
    let svg = match crate::storage::paths::path_extension(path) {
        Some(e) => crate::text::seq_eq(e.as_str(), "svg"),
        None => false,
    };
    if !svg {
        return Err(FlamegraphRefusal::NotSvg);
    }
    let allowed = starts_with_str(path, "/tmp") || starts_with_str(path, "/var/tmp") || starts_with_str(path, "/run")
        || starts_with_str(path, "/var/lib/helios") || starts_with_str(path, "/var/lib/helios/api-data")
        || starts_with_str(path, "/var/log/helios");
    if !allowed {
        return Err(FlamegraphRefusal::NotAllowed);
    }
    Ok(())
}

/// The message for each refusal.
pub fn flamegraph_refusal_message(r: FlamegraphRefusal) -> (m: &'static str)
    ensures
        m@ == match r {
            FlamegraphRefusal::NotAbsolute => "flamegraph path is not absolute"@,
            FlamegraphRefusal::NotSvg => "flamegraph path is not an svg"@,
            FlamegraphRefusal::NotAllowed => "flamegraph path not in allowed directories"@,
        },
{
    match r {
        FlamegraphRefusal::NotAbsolute => "flamegraph path is not absolute",
        FlamegraphRefusal::NotSvg => "flamegraph path is not an svg",
        FlamegraphRefusal::NotAllowed => "flamegraph path not in allowed directories",
    }
}


// ---------------------------------------------------------------------------
// The smoke test of a running pipeline.

/// How long a smoke test watches for node errors, in milliseconds: 500
/// unless asked, at most 5000.
pub fn smoke_timeout_ms(requested: Option<u64>) -> (r: u64)
    ensures
        r == (match requested {
            Some(t) => if t > 5000 {
                5000
            } else {
                t
            },
            None => 500,
        }),
{
    match requested {
        Some(t) => if t > 5000 {
            5000
        } else {
            t
        },
        None => 500,
    }
}

/// What the metrics say of one node of the running pipeline.
#[derive(Debug, Clone, PartialEq, Eq)]
pub struct NodeReport {
    pub id: String,
    pub label: Option<String>,
    pub node_type: Option<String>,
    pub last_error: Option<String>,
}

/// A failed node as the smoke test reports it: its label, else its type,
/// else its id, then the error.
pub open spec fn node_error_line(n: NodeReport) -> Option<Seq<char>> {
    match n.last_error {
        None => None,
        Some(e) => {
            let name = match n.label {
                Some(l) => l@,
                None => match n.node_type {
                    Some(t) => t@,
                    None => n.id@,
                },
            };
            Some(name + ": "@ + e@)
        },
    }
}

/// The error lines of the first `k` nodes, in order.
pub open spec fn node_errors(ns: Seq<NodeReport>, k: int) -> Seq<Seq<char>>
    decreases k,
{
    if k <= 0 {
        Seq::empty()
    } else {
        match node_error_line(ns[k - 1]) {
            Some(line) => node_errors(ns, k - 1).push(line),
            None => node_errors(ns, k - 1),
        }
    }
}

/// The smoke test looks again, or answers.
#[derive(Debug, Clone, PartialEq, Eq)]
pub enum SmokeStep {
    /// No error so far and time is left: look again shortly.
    LookAgain,
    /// The answer: passed when no node failed, with the errors.
    Answer { ok: bool, errors: Vec<String> },
}

/// One look at the pipeline's nodes (none when the metrics hold no
/// pipeline): an error ends the test at once, as does the deadline.
pub fn smoke_step(nodes: &Vec<NodeReport>, deadline_passed: bool) -> (r: SmokeStep)
    ensures
        ({
            let errs = node_errors(nodes@, nodes@.len() as int);
            match r {
                SmokeStep::LookAgain => errs.len() == 0 && !deadline_passed,
                SmokeStep::Answer { ok, errors } => (errs.len() > 0 || deadline_passed) && ok == (errs.len()
                    == 0) && crate::text::views(errors@) == errs,
            }
        }),
{
    let mut errors: Vec<String> = Vec::new();
    let mut i: usize = 0;
    while i < nodes.len()
        invariant
            i <= nodes@.len(),
            crate::text::views(errors@) == node_errors(nodes@, i as int),
        decreases nodes@.len() - i,
    {
        let n = &nodes[i];
        match &n.last_error {
            Some(e) => {
                let mut line = match &n.label {
                    Some(l) => l.clone(),
                    None => match &n.node_type {
                        Some(t) => t.clone(),
                        None => n.id.clone(),
                    },
                };
                line.append(": ");
                line.append(e.as_str());
                let ghost before = crate::text::views(errors@);
                errors.push(line);
                assert(crate::text::views(errors@) =~= before.push(line@));
            },
            None => {},
        }
        i = i + 1;
    }
    if errors.len() == 0 && !deadline_passed {
        return SmokeStep::LookAgain;
    }
    let ok = errors.len() == 0;
    SmokeStep::Answer { ok, errors }
}

} // verus!
