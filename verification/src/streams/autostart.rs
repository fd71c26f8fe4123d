//! The rules of starting the streams marked to start on boot: which stored
//! streams are started, how many at once, which capture devices each one
//! holds while it starts, and what the engine's answer to a start means.
use vstd::prelude::*;
use crate::text::{contains, contains_str, lower_seq, parse_u64, parse_u64_spec, seq_eq, to_lower, trim, trim_str, views};

verus! {

/// The default number of streams started at once, and its bounds.
pub const DEFAULT_AUTOSTART_CONCURRENCY: usize = 2;
pub const MAX_AUTOSTART_CONCURRENCY: usize = 8;

/// How many streams start at once: the configured number within 1..=8,
/// or 2 when it is absent or not a number.
pub open spec fn concurrency_for(raw: Option<Seq<char>>) -> usize {
    match raw {
        Some(s) => match parse_u64_spec(s) {
            Some(v) => if v < 1 {
                1
            } else if v > 8 {
                8
            } else {
                v as usize
            },
            None => 2,
        },
        None => 2,
    }
}

pub fn autostart_concurrency(raw: Option<&str>) -> (r: usize)
    ensures
        r == concurrency_for(
            match raw {
                Some(s) => Some(s@),
                None => None,
            },
        ),
        1 <= r <= 8,
{
    match raw {
        Some(s) => match parse_u64(s) {
            Some(v) => {
                if v < 1 {
                    1
                } else if v > 8 {
                    MAX_AUTOSTART_CONCURRENCY
                } else {
                    v as usize
                }
            },
            None => DEFAULT_AUTOSTART_CONCURRENCY,
        },
        None => DEFAULT_AUTOSTART_CONCURRENCY,
    }
}

/// What the start-on-boot rules read of a stored stream record.
#[derive(Debug, Clone, PartialEq, Eq)]
pub struct AutostartRecord {
    pub camera_id: String,
    /// The record holds a requested manifest.
    pub has_manifest: bool,
    pub internal: bool,
    pub start_on_boot: bool,
    /// The id in the manifest's identity.
    pub manifest_id: Option<u128>,
    /// The id the record was last running under.
    pub record_stream_id: Option<u128>,
}

/// A stream to start: its record, and the id it is started under.
#[derive(Debug, Clone, Copy, PartialEq, Eq, Structural)]
pub struct AutostartEntry {
    pub record: usize,
    pub stream_id: Option<u128>,
}

pub open spec fn starts_on_boot(r: AutostartRecord) -> bool {
    r.has_manifest && !r.internal && r.start_on_boot
}

/// The records to start, in order, each under its manifest's id or else
/// the id it last ran under.
pub open spec fn autostart_entries(rs: Seq<AutostartRecord>) -> Seq<AutostartEntry>
    decreases rs.len(),
{
    if rs.len() == 0 {
        Seq::empty()
    } else {
        let prev = autostart_entries(rs.drop_last());
        let r = rs.last();
        if starts_on_boot(r) {
            prev.push(
                AutostartEntry {
                    record: (rs.len() - 1) as usize,
                    stream_id: if r.manifest_id is Some {
                        r.manifest_id
                    } else {
                        r.record_stream_id
                    },
                },
            )
        } else {
            prev
        }
    }
}

pub fn autostart_queue(records: &Vec<AutostartRecord>) -> (r: Vec<AutostartEntry>)
    ensures
        r@ == autostart_entries(records@),
{
    let mut out: Vec<AutostartEntry> = Vec::new();
    let mut i: usize = 0;
    while i < records.len()
        invariant
            i <= records@.len(),
            out@ == autostart_entries(records@.subrange(0, i as int)),
        decreases records@.len() - i,
    {
        let ghost prefix = records@.subrange(0, i + 1);
        assert(prefix.drop_last() =~= records@.subrange(0, i as int));
        assert(prefix.last() == records@[i as int]);
        let r = &records[i];
        if r.has_manifest && !r.internal && r.start_on_boot {
            let id = if r.manifest_id.is_some() {
                r.manifest_id
            } else {
                r.record_stream_id
            };
            out.push(AutostartEntry { record: i, stream_id: id });
        }
        i = i + 1;
    }
    assert(records@.subrange(0, records@.len() as int) =~= records@);
    out
}

// ---------------------------------------------------------------------------
// Capture devices held while streams start.

/// The device keys a stream holds: none for a media file (a file backend,
/// or the generic `media-file` key), else its keys.
pub open spec fn held_keys(keys: Seq<Seq<char>>, file_backend: bool) -> Seq<Seq<char>> {
    if file_backend || keys.contains("media-file"@) {
        Seq::empty()
    } else {
        keys
    }
}

/// The strings in order, each once.
pub open spec fn distinct(s: Seq<Seq<char>>) -> Seq<Seq<char>>
    decreases s.len(),
{
    if s.len() == 0 {
        Seq::empty()
    } else {
        let p = distinct(s.drop_last());
        if p.contains(s.last()) {
            p
        } else {
            p.push(s.last())
        }
    }
}

/// The strings of `s` that are not in `drop`, in order.
pub open spec fn keys_without(s: Seq<Seq<char>>, drop: Seq<Seq<char>>) -> Seq<Seq<char>>
    decreases s.len(),
{
    if s.len() == 0 {
        Seq::empty()
    } else {
        let p = keys_without(s.drop_last(), drop);
        if drop.contains(s.last()) {
            p
        } else {
            p.push(s.last())
        }
    }
}

fn holds_key(v: &Vec<String>, k: &str) -> (r: bool)
    ensures
        r == views(v@).contains(k@),
{
    let ghost vv = views(v@);
    let mut i: usize = 0;
    while i < v.len()
        invariant
            vv == views(v@),
            i <= v@.len(),
            forall|j: int| 0 <= j < i ==> vv[j] != k@,
        decreases v@.len() - i,
    {
        assert(vv[i as int] == v@[i as int]@);
        if seq_eq(v[i].as_str(), k) {
            return true;
        }
        i = i + 1;
    }
    false
}

fn any_held(reserved: &Vec<String>, keys: &Vec<String>) -> (r: bool)
    ensures
        r == exists|j: int| 0 <= j < keys@.len() && views(reserved@).contains(#[trigger] views(keys@)[j]),
{
    let ghost kv = views(keys@);
    let mut i: usize = 0;
    while i < keys.len()
        invariant
            kv == views(keys@),
            i <= keys@.len(),
            forall|j: int| 0 <= j < i ==> !views(reserved@).contains(#[trigger] kv[j]),
        decreases keys@.len() - i,
    {
        assert(kv[i as int] == keys@[i as int]@);
        if holds_key(reserved, keys[i].as_str()) {
            return true;
        }
        i = i + 1;
    }
    false
}

/// Takes a starting stream's device keys. When another stream holds one
/// of them, nothing is taken and the stream is skipped (`None`); else the
/// keys not yet held are appended, each once, and returned for release.
pub fn reserve_device_keys(reserved: &mut Vec<String>, keys: &Vec<String>, file_backend: bool) -> (r: Option<Vec<String>>)
    ensures
        ({
            let held = held_keys(views(keys@), file_backend);
            &&& r is None <==> exists|j: int| 0 <= j < held.len() && views(old(reserved)@).contains(#[trigger] held[j])
            &&& r is None ==> final(reserved)@ == old(reserved)@
            &&& r matches Some(n) ==> views(n@) == distinct(held) && views(final(reserved)@) == views(old(reserved)@) + views(n@)
        }),
{
    let ghost held = held_keys(views(keys@), file_backend);
    let ghost r0 = views(reserved@);
    proof {
        reveal_strlit("media-file");
    }
    if file_backend || holds_key(keys, "media-file") {
        assert(held.len() == 0);
        assert(distinct(held) =~= Seq::<Seq<char>>::empty());
        let none: Vec<String> = Vec::new();
        assert(views(none@) =~= Seq::<Seq<char>>::empty());
        assert(r0 + Seq::<Seq<char>>::empty() =~= r0);
        return Some(none);
    }
    assert(held == views(keys@));
    if any_held(reserved, keys) {
        return None;
    }
    let mut newly: Vec<String> = Vec::new();
    let mut i: usize = 0;
    while i < keys.len()
        invariant
            held == views(keys@),
            r0 == views(old(reserved)@),
            forall|j: int| 0 <= j < held.len() ==> !r0.contains(#[trigger] held[j]),
            i <= keys@.len(),
            views(newly@) == distinct(held.subrange(0, i as int)),
            views(reserved@) == r0 + views(newly@),
        decreases keys@.len() - i,
    {
        let ghost pre = held.subrange(0, i + 1);
        assert(pre.drop_last() =~= held.subrange(0, i as int));
        assert(pre.last() == keys@[i as int]@);
        let ghost before_r = views(reserved@);
        let ghost before_n = views(newly@);
        let already = holds_key(&newly, keys[i].as_str());
        if !already {
            reserved.push(keys[i].clone());
            newly.push(keys[i].clone());
            assert(views(newly@) =~= before_n.push(held[i as int]));
            assert(views(reserved@) =~= before_r.push(held[i as int]));
            assert(views(reserved@) =~= r0 + views(newly@));
        }
        i = i + 1;
    }
    assert(held.subrange(0, held.len() as int) =~= held);
    Some(newly)
}

/// Gives back the keys a stream took when its start failed.
pub fn release_device_keys(reserved: &mut Vec<String>, taken: &Vec<String>)
    ensures
        views(final(reserved)@) == keys_without(views(old(reserved)@), views(taken@)),
{
    let ghost r0 = views(reserved@);
    let mut kept: Vec<String> = Vec::new();
    let mut i: usize = 0;
    while i < reserved.len()
        invariant
            r0 == views(reserved@),
            i <= reserved@.len(),
            views(kept@) == keys_without(r0.subrange(0, i as int), views(taken@)),
        decreases reserved@.len() - i,
    {
        let ghost pre = r0.subrange(0, i + 1);
        assert(pre.drop_last() =~= r0.subrange(0, i as int));
        assert(pre.last() == reserved@[i as int]@);
        let ghost before = views(kept@);
        if !holds_key(taken, reserved[i].as_str()) {
            kept.push(reserved[i].clone());
            assert(views(kept@) =~= before.push(r0[i as int]));
        }
        i = i + 1;
    }
    assert(r0.subrange(0, r0.len() as int) =~= r0);
    *reserved = kept;
}


proof fn lemma_without_taken_suffix(before: Seq<Seq<char>>, t: Seq<Seq<char>>, taken: Seq<Seq<char>>)
    requires
        forall|j: int| 0 <= j < t.len() ==> taken.contains(#[trigger] t[j]),
    ensures
        keys_without(before + t, taken) == keys_without(before, taken),
    decreases t.len(),
{
    if t.len() > 0 {
        assert((before + t).drop_last() =~= before + t.drop_last());
        assert((before + t).last() == t.last());
        assert(taken.contains(t[t.len() - 1]));
        lemma_without_taken_suffix(before, t.drop_last(), taken);
    } else {
        assert(before + t =~= before);
    }
}

proof fn lemma_without_untouched(before: Seq<Seq<char>>, taken: Seq<Seq<char>>)
    requires
        forall|j: int| 0 <= j < before.len() ==> !taken.contains(#[trigger] before[j]),
    ensures
        keys_without(before, taken) == before,
    decreases before.len(),
{
    if before.len() > 0 {
        assert(!taken.contains(before[before.len() - 1]));
        lemma_without_untouched(before.drop_last(), taken);
        assert(before.drop_last().push(before.last()) =~= before);
    }
}

/// Releasing the keys a reservation took gives back the reservations as
/// they were before it (the keys it took were held by no one).
pub proof fn law_release_undoes_reserve(before: Seq<Seq<char>>, taken: Seq<Seq<char>>)
    requires
        forall|j: int| 0 <= j < before.len() ==> !taken.contains(#[trigger] before[j]),
    ensures
        keys_without(before + taken, taken) == before,
{
    assert forall|j: int| 0 <= j < taken.len() implies taken.contains(#[trigger] taken[j]) by {}
    lemma_without_taken_suffix(before, taken, taken);
    lemma_without_untouched(before, taken);
}

// ---------------------------------------------------------------------------
// The engine's answer to a start.

/// A refusal that says the stream or its device is already running.
pub open spec fn start_conflict(reason: Seq<char>) -> bool {
    let l = lower_seq(reason);
    contains(l, "stream already exists"@) || contains(l, "already in use"@) || contains(l, "conflict"@)
}

pub fn is_start_conflict(reason: &str) -> (r: bool)
    ensures
        r == start_conflict(reason@),
{
    let l = to_lower(reason);
    contains_str(l.as_str(), "stream already exists") || contains_str(l.as_str(), "already in use") || contains_str(
        l.as_str(),
        "conflict",
    )
}

/// A running stream is the one an autostart was refused for when it holds
/// the same capture target (`same_target`), has the same id, or carries
/// the same alias, both trimmed (a blank alias matches nothing).
pub open spec fn same_running_stream(
    same_target: bool,
    id: Option<u128>,
    running_id: Option<u128>,
    alias: Option<Seq<char>>,
    running_alias: Option<Seq<char>>,
) -> bool {
    ||| same_target
    ||| (id is Some && running_id == id)
    ||| match (alias, running_alias) {
        (Some(a), Some(b)) => trim(a).len() > 0 && trim(b) == trim(a),
        _ => false,
    }
}

pub fn is_same_running_stream(
    same_target: bool,
    id: Option<u128>,
    running_id: Option<u128>,
    alias: &Option<String>,
    running_alias: &Option<String>,
) -> (r: bool)
    ensures
        r == same_running_stream(
            same_target,
            id,
            running_id,
            crate::streams::manifest::opt_view(*alias),
            crate::streams::manifest::opt_view(*running_alias),
        ),
{
    if same_target || (id.is_some() && running_id == id) {
        return true;
    }
    match (alias, running_alias) {
        (Some(a), Some(b)) => {
            let ta = trim_str(a.as_str());
            ta.unicode_len() > 0 && seq_eq(trim_str(b.as_str()), ta)
        },
        _ => false,
    }
}

/// What the engine answered to a start.
#[derive(Debug, Clone, PartialEq, Eq)]
pub enum StartAnswer {
    Started { stream_id: u128 },
    Refused { reason: String },
    /// Any other event, or no answer.
    Unclear,
}

/// The next step of an autostart.
#[derive(Debug, Clone, Copy, PartialEq, Eq, Structural)]
pub enum AutostartStep {
    /// Store the manifest as running under this id.
    Record { stream_id: u128 },
    /// Look among the running streams for the one it conflicts with.
    FindRunning,
    /// Wait for the stream to show up as started.
    AwaitStart,
    /// Give up on this stream.
    GiveUp,
}

pub open spec fn step_after(answer: StartAnswer) -> AutostartStep {
    match answer {
        StartAnswer::Started { stream_id } => AutostartStep::Record { stream_id },
        StartAnswer::Refused { reason } => if start_conflict(reason@) {
            AutostartStep::FindRunning
        } else {
            AutostartStep::GiveUp
        },
        StartAnswer::Unclear => AutostartStep::AwaitStart,
    }
}

pub fn autostart_step(answer: &StartAnswer) -> (r: AutostartStep)
    ensures
        r == step_after(*answer),
{
    match answer {
        StartAnswer::Started { stream_id } => AutostartStep::Record { stream_id: *stream_id },
        StartAnswer::Refused { reason } => {
            if is_start_conflict(reason.as_str()) {
                AutostartStep::FindRunning
            } else {
                AutostartStep::GiveUp
            }
        },
        StartAnswer::Unclear => AutostartStep::AwaitStart,
    }
}

} // verus!
