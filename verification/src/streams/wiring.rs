//! Whether a pipeline graph consumes the host inputs that the crop,
//! crosshair and ordering controls feed: the graph's host bridge nodes, the
//! edges that leave them, and the warnings shown when the wiring is
//! missing or partial.
use vstd::prelude::*;
use crate::text::{ends_with, ends_with_str, owned, seq_eq, split, split_char, split_once, split_once_char, trim, trim_str, views};

verus! {

/// What the wiring rules read of a graph node.
#[derive(Debug, Clone, PartialEq, Eq)]
pub struct GraphNodeFacts {
    /// The node's `id`, when it is a string.
    pub id: Option<String>,
    /// The node's `outputs` that are strings.
    pub outputs: Vec<String>,
    /// The `host_bridge_outputs` metadata value, when it is a string.
    pub bridge_outputs: Option<String>,
}

/// What the wiring rules read of a graph edge: its source node index and
/// port, when present.
#[derive(Debug, Clone, PartialEq, Eq)]
pub struct GraphEdgeFacts {
    pub from_node: Option<u64>,
    pub from_port: Option<String>,
}

/// A stream's active graph, as far as it could be had.
#[derive(Debug, Clone, PartialEq, Eq)]
pub enum GraphFacts {
    /// No graph could be loaded for the pipeline.
    Unresolved,
    /// The payload has no node and edge lists.
    NotAGraph,
    Graph { nodes: Vec<GraphNodeFacts>, edges: Vec<GraphEdgeFacts> },
}

/// A host bridge node: `io.host_bridge`, alone or after a `:` prefix.
pub open spec fn is_bridge_id(id: Option<String>) -> bool {
    id matches Some(s) && (s@ == "io.host_bridge"@ || ends_with(s@, ":io.host_bridge"@))
}

fn bridge_id(id: &Option<String>) -> (r: bool)
    ensures
        r == is_bridge_id(*id),
{
    match id {
        Some(s) => seq_eq(s.as_str(), "io.host_bridge") || ends_with_str(s.as_str(), ":io.host_bridge"),
        None => false,
    }
}

/// An edge leaves a host bridge through port `key`.
pub open spec fn edge_feeds(nodes: Seq<GraphNodeFacts>, e: GraphEdgeFacts, key: Seq<char>) -> bool {
    &&& e.from_node matches Some(n)
    &&& n < nodes.len()
    &&& is_bridge_id(nodes[n as int].id)
    &&& e.from_port matches Some(p)
    &&& p@ == key
}

pub open spec fn key_wired(nodes: Seq<GraphNodeFacts>, edges: Seq<GraphEdgeFacts>, key: Seq<char>) -> bool {
    exists|j: int| 0 <= j < edges.len() && edge_feeds(nodes, #[trigger] edges[j], key)
}

pub open spec fn has_bridge(nodes: Seq<GraphNodeFacts>) -> bool {
    exists|i: int| 0 <= i < nodes.len() && is_bridge_id(#[trigger] nodes[i].id)
}

/// The keys, in order, that are (or are not) wired.
pub open spec fn keys_where(nodes: Seq<GraphNodeFacts>, edges: Seq<GraphEdgeFacts>, keys: Seq<Seq<char>>, wired: bool) -> Seq<Seq<char>>
    decreases keys.len(),
{
    if keys.len() == 0 {
        Seq::empty()
    } else {
        let p = keys_where(nodes, edges, keys.drop_last(), wired);
        if key_wired(nodes, edges, keys.last()) == wired {
            p.push(keys.last())
        } else {
            p
        }
    }
}

/// The strings joined by `, `.
pub open spec fn comma_joined(s: Seq<Seq<char>>) -> Seq<char>
    decreases s.len(),
{
    if s.len() == 0 {
        Seq::empty()
    } else if s.len() == 1 {
        s[0]
    } else {
        comma_joined(s.drop_last()) + ", "@ + s.last()
    }
}

/// Whether the graph consumes every key, and the warnings about it.
#[derive(Debug, Clone, PartialEq, Eq)]
pub struct InputUsage {
    pub used: bool,
    pub warnings: Vec<String>,
}

/// How the controls that feed the keys are named in warnings.
#[derive(Debug, Clone, PartialEq, Eq)]
pub struct ControlsLabel {
    /// What the keys are, such as `ROI`.
    pub key_label: String,
    /// The controls, in lower case (`crop controls`).
    pub lower: String,
    /// The controls, capitalized (`Crop controls`).
    pub title: String,
}

/// The usage of the keys by a graph. No graph, or no host bridge: unused,
/// with a warning that says why. Otherwise used when every key (counted
/// once) is fed by an edge out of a host bridge; a warning when none is,
/// or names the missing keys when some are.
pub open spec fn usage_for(g: GraphFacts, keys: Seq<Seq<char>>, l: ControlsLabel) -> (bool, Seq<Seq<char>>) {
    match g {
        GraphFacts::Unresolved => (
            false,
            seq!["Unable to verify "@ + l.key_label@ + " wiring for the active graph; "@ + l.lower@ + " may have no effect."@],
        ),
        GraphFacts::NotAGraph => (
            false,
            seq!["Active graph payload is not a Daedalus graph; "@ + l.lower@ + " may have no effect."@],
        ),
        GraphFacts::Graph { nodes, edges } => if !has_bridge(nodes@) {
            (false, seq!["Active graph has no io.host_bridge node; "@ + l.lower@ + " are not wired."@])
        } else {
            let wired = crate::streams::autostart::distinct(keys_where(nodes@, edges@, keys, true));
            let missing = keys_where(nodes@, edges@, keys, false);
            (
                wired.len() == keys.len(),
                if wired.len() == 0 {
                    seq![
                        l.key_label@ + " inputs are not consumed by the active graph. "@ + l.title@
                            + " will not affect pipeline detections/overlay."@,
                    ]
                } else if wired.len() < keys.len() {
                    seq![l.key_label@ + " wiring is partial in the active graph (missing: "@ + comma_joined(missing) + ")."@]
                } else {
                    Seq::empty()
                },
            )
        },
    }
}

fn any_bridge(nodes: &Vec<GraphNodeFacts>) -> (r: bool)
    ensures
        r == has_bridge(nodes@),
{
    let mut i: usize = 0;
    while i < nodes.len()
        invariant
            i <= nodes@.len(),
            forall|k: int| 0 <= k < i ==> !is_bridge_id(#[trigger] nodes@[k].id),
        decreases nodes@.len() - i,
    {
        if bridge_id(&nodes[i].id) {
            return true;
        }
        i = i + 1;
    }
    false
}

fn wired(nodes: &Vec<GraphNodeFacts>, edges: &Vec<GraphEdgeFacts>, key: &str) -> (r: bool)
    ensures
        r == key_wired(nodes@, edges@, key@),
{
    let mut j: usize = 0;
    while j < edges.len()
        invariant
            j <= edges@.len(),
            forall|k: int| 0 <= k < j ==> !edge_feeds(nodes@, #[trigger] edges@[k], key@),
        decreases edges@.len() - j,
    {
        let e = &edges[j];
        let feeds = match (e.from_node, &e.from_port) {
            (Some(n), Some(p)) => n < nodes.len() as u64 && bridge_id(&nodes[n as usize].id) && seq_eq(p.as_str(), key),
            _ => false,
        };
        if feeds {
            return true;
        }
        j = j + 1;
    }
    false
}

fn holds(v: &Vec<String>, k: &str) -> (r: bool)
    ensures
        r == views(v@).contains(k@),
{
    let ghost vv = views(v@);
    let mut i: usize = 0;
    while i < v.len()
        invariant
            vv == views(v@),
            i <= v@.len(),
            forall|j: int| 0 <= j < i ==> vv[j] != k@,
        decreases v@.len() - i,
    {
        assert(vv[i as int] == v@[i as int]@);
        if seq_eq(v[i].as_str(), k) {
            return true;
        }
        i = i + 1;
    }
    false
}

fn join_comma(v: &Vec<String>) -> (r: String)
    ensures
        r@ == comma_joined(views(v@)),
{
    let ghost vv = views(v@);
    let mut out = String::new();
    let mut i: usize = 0;
    while i < v.len()
        invariant
            vv == views(v@),
            i <= v@.len(),
            out@ == comma_joined(vv.subrange(0, i as int)),
        decreases v@.len() - i,
    {
        let ghost pre = vv.subrange(0, i + 1);
        assert(pre.drop_last() =~= vv.subrange(0, i as int));
        assert(pre.last() == v@[i as int]@);
        if i > 0 {
            out.append(", ");
        } else {
            assert(out@ =~= Seq::<char>::empty());
        }
        out.append(v[i].as_str());
        i = i + 1;
    }
    assert(vv.subrange(0, vv.len() as int) =~= vv);
    out
}

pub fn inspect_host_input_usage(g: &GraphFacts, keys: &Vec<String>, label: &ControlsLabel) -> (r: InputUsage)
    ensures
        (r.used, views(r.warnings@)) == usage_for(*g, views(keys@), *label),
{
    let mut warnings: Vec<String> = Vec::new();
    match g {
        GraphFacts::Unresolved => {
            let mut w = owned("Unable to verify ");
            w.append(label.key_label.as_str());
            w.append(" wiring for the active graph; ");
            w.append(label.lower.as_str());
            w.append(" may have no effect.");
            warnings.push(w);
            assert(views(warnings@) =~= usage_for(*g, views(keys@), *label).1);
            InputUsage { used: false, warnings }
        },
        GraphFacts::NotAGraph => {
            let mut w = owned("Active graph payload is not a Daedalus graph; ");
            w.append(label.lower.as_str());
            w.append(" may have no effect.");
            warnings.push(w);
            assert(views(warnings@) =~= usage_for(*g, views(keys@), *label).1);
            InputUsage { used: false, warnings }
        },
        GraphFacts::Graph { nodes, edges } => {
            if !any_bridge(nodes) {
                let mut w = owned("Active graph has no io.host_bridge node; ");
                w.append(label.lower.as_str());
                w.append(" are not wired.");
                warnings.push(w);
                assert(views(warnings@) =~= usage_for(*g, views(keys@), *label).1);
                return InputUsage { used: false, warnings };
            }
            let ghost kv = views(keys@);
            let mut connected: Vec<String> = Vec::new();
            let mut missing: Vec<String> = Vec::new();
            let mut i: usize = 0;
            while i < keys.len()
                invariant
                    kv == views(keys@),
                    i <= keys@.len(),
                    views(connected@) == crate::streams::autostart::distinct(
                        keys_where(nodes@, edges@, kv.subrange(0, i as int), true),
                    ),
                    views(missing@) == keys_where(nodes@, edges@, kv.subrange(0, i as int), false),
                decreases keys@.len() - i,
            {
                let ghost pre = kv.subrange(0, i + 1);
                assert(pre.drop_last() =~= kv.subrange(0, i as int));
                assert(pre.last() == keys@[i as int]@);
                let ghost wired_before = keys_where(nodes@, edges@, kv.subrange(0, i as int), true);
                let ghost before_c = views(connected@);
                let ghost before_m = views(missing@);
                if wired(nodes, edges, keys[i].as_str()) {
                    assert(keys_where(nodes@, edges@, pre, true) == wired_before.push(kv[i as int]));
                    assert(wired_before.push(kv[i as int]).drop_last() =~= wired_before);
                    if !holds(&connected, keys[i].as_str()) {
                        connected.push(keys[i].clone());
                        assert(views(connected@) =~= before_c.push(kv[i as int]));
                    }
                } else {
                    assert(keys_where(nodes@, edges@, pre, true) == wired_before);
                    missing.push(keys[i].clone());
                    assert(views(missing@) =~= before_m.push(kv[i as int]));
                }
                i = i + 1;
            }
            assert(kv.subrange(0, kv.len() as int) =~= kv);
            let used = connected.len() == keys.len();
            if connected.len() == 0 {
                let mut w = owned(label.key_label.as_str());
                w.append(" inputs are not consumed by the active graph. ");
                w.append(label.title.as_str());
                w.append(" will not affect pipeline detections/overlay.");
                warnings.push(w);
            } else if connected.len() < keys.len() {
                let mut w = owned(label.key_label.as_str());
                w.append(" wiring is partial in the active graph (missing: ");
                let joined = join_comma(&missing);
                w.append(joined.as_str());
                w.append(").");
                warnings.push(w);
            }
            assert(views(warnings@) =~= usage_for(*g, views(keys@), *label).1);
            InputUsage { used, warnings }
        },
    }
}

// ---------------------------------------------------------------------------
// Inputs a host bridge declares.

/// A `host_bridge_outputs` value declares `key` when one of its
/// comma-separated, trimmed, non-blank entries reads `key:type`.
pub open spec fn entry_declares(entry: Seq<char>, key: Seq<char>) -> bool {
    let e = trim(entry);
    e.len() > 0 && match split_once(e, ':') {
        Some((name, _)) => name == key,
        None => false,
    }
}

pub open spec fn spec_declares(spec: Seq<char>, key: Seq<char>) -> bool {
    exists|i: int| 0 <= i < split(spec, ',').len() && entry_declares(#[trigger] split(spec, ',')[i], key)
}

/// A host bridge node declares `key` among its outputs or in its
/// `host_bridge_outputs` metadata.
pub open spec fn node_declares(n: GraphNodeFacts, key: Seq<char>) -> bool {
    is_bridge_id(n.id) && (views(n.outputs@).contains(key) || (n.bridge_outputs matches Some(s) && spec_declares(s@, key)))
}

pub open spec fn graph_declares(g: GraphFacts, key: Seq<char>) -> bool {
    match g {
        GraphFacts::Graph { nodes, .. } => exists|i: int| 0 <= i < nodes@.len() && node_declares(#[trigger] nodes@[i], key),
        _ => false,
    }
}

fn declares_in_spec(spec: &str, key: &str) -> (r: bool)
    ensures
        r == spec_declares(spec@, key@),
{
    let entries = split_char(spec, ',');
    let ghost ev = views(entries@);
    let mut i: usize = 0;
    while i < entries.len()
        invariant
            ev == views(entries@),
            ev == split(spec@, ','),
            i <= entries@.len(),
            forall|k: int| 0 <= k < i ==> !entry_declares(#[trigger] split(spec@, ',')[k], key@),
        decreases entries@.len() - i,
    {
        assert(ev[i as int] == entries@[i as int]@);
        let e = trim_str(entries[i].as_str());
        if e.unicode_len() > 0 {
            match split_once_char(e, ':') {
                Some((name, _)) => {
                    if seq_eq(name.as_str(), key) {
                        return true;
                    }
                },
                None => {},
            }
        }
        i = i + 1;
    }
    false
}

pub fn host_bridge_declares_input(g: &GraphFacts, key: &str) -> (r: bool)
    ensures
        r == graph_declares(*g, key@),
{
    match g {
        GraphFacts::Graph { nodes, .. } => {
            let mut i: usize = 0;
            while i < nodes.len()
                invariant
                    i <= nodes@.len(),
                    graph_declares(*g, key@) == exists|k: int| 0 <= k < nodes@.len() && node_declares(#[trigger] nodes@[k], key@),
                    forall|k: int| 0 <= k < i ==> !node_declares(#[trigger] nodes@[k], key@),
                decreases nodes@.len() - i,
            {
                let n = &nodes[i];
                if bridge_id(&n.id) {
                    if holds(&n.outputs, key) {
                        assert(node_declares(nodes@[i as int], key@));
                        return true;
                    }
                    let declared = match &n.bridge_outputs {
                        Some(s) => declares_in_spec(s.as_str(), key),
                        None => false,
                    };
                    if declared {
                        assert(node_declares(nodes@[i as int], key@));
                        return true;
                    }
                }
                i = i + 1;
            }
            false
        },
        _ => false,
    }
}

// ---------------------------------------------------------------------------
// The controls that feed host inputs.

/// The host inputs a control group feeds, and how its warnings name it.
#[derive(Debug, Clone, Copy, PartialEq, Eq, Structural)]
pub enum HostControls {
    Crop,
    Crosshair,
    DetectionOrder,
}

pub open spec fn control_keys(c: HostControls) -> Seq<Seq<char>> {
    match c {
        HostControls::Crop => seq!["roi_x"@, "roi_y"@, "roi_w"@, "roi_h"@],
        HostControls::Crosshair => seq!["crosshair_x"@, "crosshair_y"@, "draw_crosshair"@],
        HostControls::DetectionOrder => seq!["order_mode"@],
    }
}

pub fn host_input_keys(c: HostControls) -> (r: Vec<String>)
    ensures
        views(r@) == control_keys(c),
{
    let mut out: Vec<String> = Vec::new();
    match c {
        HostControls::Crop => {
            out.push(owned("roi_x"));
            out.push(owned("roi_y"));
            out.push(owned("roi_w"));
            out.push(owned("roi_h"));
        },
        HostControls::Crosshair => {
            out.push(owned("crosshair_x"));
            out.push(owned("crosshair_y"));
            out.push(owned("draw_crosshair"));
        },
        HostControls::DetectionOrder => {
            out.push(owned("order_mode"));
        },
    }
    assert(views(out@) =~= control_keys(c));
    out
}

pub fn controls_label(c: HostControls) -> (r: ControlsLabel)
    ensures
        match c {
            HostControls::Crop => r.key_label@ == "ROI"@ && r.lower@ == "crop controls"@ && r.title@ == "Crop controls"@,
            HostControls::Crosshair => r.key_label@ == "crosshair"@ && r.lower@ == "crosshair controls"@ && r.title@
                == "Crosshair controls"@,
            HostControls::DetectionOrder => r.key_label@ == "Order"@ && r.lower@ == "ordering controls"@ && r.title@
                == "Ordering controls"@,
        },
{
    match c {
        HostControls::Crop => ControlsLabel { key_label: owned("ROI"), lower: owned("crop controls"), title: owned("Crop controls") },
        HostControls::Crosshair => ControlsLabel {
            key_label: owned("crosshair"),
            lower: owned("crosshair controls"),
            title: owned("Crosshair controls"),
        },
        HostControls::DetectionOrder => ControlsLabel {
            key_label: owned("Order"),
            lower: owned("ordering controls"),
            title: owned("Ordering controls"),
        },
    }
}

} // verus!
