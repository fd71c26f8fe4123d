//! The pipeline output ports of a stream as the API lists them: a stream
//! that shows the RAW pipeline gets an `undistorted` port beside `raw`,
//! and the `frame` alias is left out once a canonical RAW port is listed.
use vstd::prelude::*;
use crate::streams::manifest::{ConfigView, PipelineConfig};
use crate::text::{eq_ignore_ascii_case, eq_ignore_case, owned, views};

verus! {

/// The stream shows the RAW pipeline: it is the active one, or a slot of
/// the grid shows it.
pub open spec fn shows_raw(c: ConfigView, raw: u128) -> bool {
    c.active_id == Some(raw) || (c.layout matches Some(l) && exists|i: int|
        0 <= i < l.slots.len() && (#[trigger] l.slots[i]).pipeline_id == Some(raw))
}

fn any_slot_shows(slots: &Vec<crate::streams::manifest::LayoutSlot>, id: u128) -> (r: bool)
    ensures
        r == exists|i: int|
            0 <= i < slots@.len() && (#[trigger] crate::streams::manifest::slot_views(slots@)[i]).pipeline_id == Some(id),
{
    let ghost sv = crate::streams::manifest::slot_views(slots@);
    let mut i: usize = 0;
    while i < slots.len()
        invariant
            sv == crate::streams::manifest::slot_views(slots@),
            i <= slots@.len(),
            forall|k: int| 0 <= k < i ==> (#[trigger] sv[k]).pipeline_id != Some(id),
        decreases slots@.len() - i,
    {
        assert(sv[i as int] == slots@[i as int]@);
        if slots[i].pipeline_id == Some(id) {
            return true;
        }
        i = i + 1;
    }
    false
}

pub fn pipeline_shows_raw(cfg: &PipelineConfig, raw: u128) -> (r: bool)
    ensures
        r == shows_raw(cfg@, raw),
{
    if cfg.active_pipeline_id == Some(raw) {
        return true;
    }
    match &cfg.pipeline_layout {
        None => false,
        Some(l) => any_slot_shows(&l.slots, raw),
    }
}

/// One port of the list shown: its name, and the port of the engine's
/// list whose description it takes.
#[derive(Debug, Clone, PartialEq, Eq)]
pub struct PortPick {
    pub name: String,
    pub from: usize,
}

pub open spec fn pick_views(s: Seq<PortPick>) -> Seq<(Seq<char>, int)> {
    s.map_values(|p: PortPick| (p.name@, p.from as int))
}

/// The first port from index `i` on named `what` (any ASCII case), or the
/// length.
pub open spec fn named_from(names: Seq<Seq<char>>, what: Seq<char>, i: int) -> int
    decreases names.len() - i,
{
    if i < 0 || i >= names.len() {
        names.len() as int
    } else if eq_ignore_case(names[i], what) {
        i
    } else {
        named_from(names, what, i + 1)
    }
}

/// The engine's ports in order; then, for a stream that shows the RAW
/// pipeline, when the engine lists a `raw` port and no `undistorted` one,
/// an `undistorted` port described as the first `raw` one.
pub open spec fn with_undistorted(names: Seq<Seq<char>>, raw_shown: bool) -> Seq<(Seq<char>, int)> {
    let base = Seq::new(names.len(), |i: int| (names[i], i));
    let k = named_from(names, "raw"@, 0);
    if raw_shown && k < names.len() && named_from(names, "undistorted"@, 0) >= names.len() {
        base.push(("undistorted"@, k))
    } else {
        base
    }
}

pub open spec fn is_canonical_raw(name: Seq<char>) -> bool {
    eq_ignore_case(name, "raw"@) || eq_ignore_case(name, "undistorted"@)
}

/// The first `n` ports without those named `frame` (any ASCII case).
pub open spec fn frame_dropped(s: Seq<(Seq<char>, int)>, n: int) -> Seq<(Seq<char>, int)>
    decreases n,
{
    if n <= 0 {
        Seq::empty()
    } else if eq_ignore_case(s[n - 1].0, "frame"@) {
        frame_dropped(s, n - 1)
    } else {
        frame_dropped(s, n - 1).push(s[n - 1])
    }
}

/// The ports the API lists for the engine's ports `names`.
pub open spec fn shown_ports(names: Seq<Seq<char>>, raw_shown: bool) -> Seq<(Seq<char>, int)> {
    let s = with_undistorted(names, raw_shown);
    if exists|i: int| 0 <= i < s.len() && is_canonical_raw(#[trigger] s[i].0) {
        frame_dropped(s, s.len() as int)
    } else {
        s
    }
}

fn find_named(names: &Vec<String>, what: &str) -> (r: usize)
    ensures
        r == named_from(views(names@), what@, 0),
{
    let ghost nv = views(names@);
    let mut i: usize = 0;
    while i < names.len()
        invariant
            nv == views(names@),
            i <= names@.len(),
            named_from(nv, what@, 0) == named_from(nv, what@, i as int),
        decreases names@.len() - i,
    {
        assert(nv[i as int] == names@[i as int]@);
        if eq_ignore_ascii_case(names[i].as_str(), what) {
            return i;
        }
        i = i + 1;
    }
    i
}

/// The ports a stream's pipeline output list shows, given the engine's
/// ports by name and whether the stream shows the RAW pipeline.
pub fn shown_pipeline_outputs(names: &Vec<String>, raw_shown: bool) -> (r: Vec<PortPick>)
    ensures
        pick_views(r@) == shown_ports(views(names@), raw_shown),
{
    let ghost nv = views(names@);
    let mut all: Vec<PortPick> = Vec::new();
    let mut i: usize = 0;
    while i < names.len()
        invariant
            nv == views(names@),
            i <= names@.len(),
            pick_views(all@) == Seq::new(i as nat, |j: int| (nv[j], j)),
        decreases names@.len() - i,
    {
        let ghost before = pick_views(all@);
        all.push(PortPick { name: names[i].clone(), from: i });
        assert(pick_views(all@) =~= before.push((nv[i as int], i as int)));
        assert(pick_views(all@) =~= Seq::new((i + 1) as nat, |j: int| (nv[j], j)));
        i = i + 1;
    }
    let k = find_named(names, "raw");
    if raw_shown && k < names.len() && find_named(names, "undistorted") >= names.len() {
        let ghost before = pick_views(all@);
        all.push(PortPick { name: owned("undistorted"), from: k });
        assert(pick_views(all@) =~= before.push(("undistorted"@, k as int)));
    }
    let ghost s = with_undistorted(nv, raw_shown);
    assert(pick_views(all@) =~= s);
    let mut canonical = false;
    let mut j: usize = 0;
    while j < all.len()
        invariant
            s == pick_views(all@),
            j <= all@.len(),
            canonical == exists|m: int| 0 <= m < j && is_canonical_raw(#[trigger] s[m].0),
        decreases all@.len() - j,
    {
        assert(s[j as int] == (all@[j as int].name@, all@[j as int].from as int));
        let hit = eq_ignore_ascii_case(all[j].name.as_str(), "raw") || eq_ignore_ascii_case(
            all[j].name.as_str(),
            "undistorted",
        );
        assert(hit == is_canonical_raw(s[j as int].0));
        if hit {
            canonical = true;
        }
        assert(canonical == exists|m: int| 0 <= m < j + 1 && is_canonical_raw(#[trigger] s[m].0)) by {
            if hit {
                assert(is_canonical_raw(s[j as int].0));
            }
        }
        j = j + 1;
    }
    if !canonical {
        return all;
    }
    let mut out: Vec<PortPick> = Vec::new();
    let mut m: usize = 0;
    while m < all.len()
        invariant
            s == pick_views(all@),
            m <= all@.len(),
            pick_views(out@) == frame_dropped(s, m as int),
        decreases all@.len() - m,
    {
        assert(s[m as int] == (all@[m as int].name@, all@[m as int].from as int));
        if !eq_ignore_ascii_case(all[m].name.as_str(), "frame") {
            let ghost before = pick_views(out@);
            out.push(PortPick { name: all[m].name.clone(), from: all[m].from });
            assert(pick_views(out@) =~= before.push(s[m as int]));
        }
        m = m + 1;
    }
    out
}

} // verus!
