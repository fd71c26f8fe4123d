//! Capture controls: whether a new value suits the control; across a
//! stream update, which values the new stream starts with, merged by
//! control id as a sorted map, and the frame rate and autostart it takes
//! over; and the frame range of a file replay, which must stay ordered.
use vstd::prelude::*;
use crate::streams::lifecycle::{DEFAULT_LIBCAMERA_TARGET_FPS, LIBCAMERA_FRAME_DURATION_LIMITS, MAX_INHERITED_LIBCAMERA_TARGET_FPS};
use crate::streams::validation::{ControlAssignment, ControlValue};
use crate::text::{decimal, ends_with, ends_with_str, owned, push_decimal, seq_eq, substring, trim, trim_str};

verus! {

// ---------------------------------------------------------------------------
// Checking a new value against what the descriptor says of the control.

/// The kinds of capture control.
#[derive(Debug, Clone, Copy, PartialEq, Eq, Structural)]
pub enum ControlKind {
    Bool,
    Int,
    Uint,
    Float,
    /// A menu, chosen by the unsigned index of its entry.
    Menu,
    /// An integer menu, chosen by the signed index of its entry.
    IntMenu,
    /// A kind that takes none of the values above.
    Other,
}

/// What the capture descriptor says of a control, as far as checking a new
/// value goes.
#[derive(Debug, Clone, Copy, PartialEq, Eq, Structural)]
pub struct ControlLimits {
    pub read_only: bool,
    pub kind: ControlKind,
    /// The number of menu entries, when the descriptor lists them.
    pub menu_len: Option<usize>,
}

/// How a value compares with the control's range. The comparison is made
/// on the numbers as `f64`, as the descriptor reports them; the bounds come
/// rendered as text for the message.
#[derive(Debug, Clone, PartialEq, Eq)]
pub enum RangeVerdict {
    /// The value is a NaN or an infinity.
    NotFinite,
    /// The value lies outside `min..=max`.
    OutOfRange { min: String, max: String },
    /// The value lies within the range, or the range is not fully known.
    Within,
}

/// The value is of the type the control kind takes (a menu by its index).
pub open spec fn kind_fits(kind: ControlKind, v: ControlValue) -> bool {
    match (kind, v) {
        (ControlKind::Bool, ControlValue::Bool(_)) => true,
        (ControlKind::Int, ControlValue::Int(_)) => true,
        (ControlKind::Uint, ControlValue::Uint(_)) => true,
        (ControlKind::Float, ControlValue::Float { .. }) => true,
        (ControlKind::Menu, ControlValue::Uint(_)) => true,
        (ControlKind::IntMenu, ControlValue::Int(_)) => true,
        _ => false,
    }
}

/// The menu entry a value picks, when it is not negative.
pub open spec fn menu_index(v: ControlValue) -> Option<int> {
    match v {
        ControlValue::Uint(x) => Some(x as int),
        ControlValue::Int(x) => if x >= 0 {
            Some(x as int)
        } else {
            None
        },
        _ => None,
    }
}

/// Whether a new value suits a control, else why not: a read-only control
/// takes nothing; clearing (`Unset`) is always allowed; otherwise the value
/// must be of the control's type, finite, within its range, and, for a
/// menu whose entries are listed, the index of an entry.
pub open spec fn control_value_check(l: ControlLimits, v: ControlValue, range: RangeVerdict) -> Result<(), Seq<char>> {
    if l.read_only {
        Err("control is read-only"@)
    } else if v == ControlValue::Unset {
        Ok(())
    } else if !kind_fits(l.kind, v) {
        Err("value type mismatch for control kind"@)
    } else {
        match range {
            RangeVerdict::NotFinite => Err("value is not finite"@),
            RangeVerdict::OutOfRange { min, max } => Err("value out of range (min="@ + min@ + ", max="@ + max@ + ")"@),
            RangeVerdict::Within => if (l.kind == ControlKind::Menu || l.kind == ControlKind::IntMenu) && l.menu_len is Some {
                let len = l.menu_len->0;
                match menu_index(v) {
                    None => Err("menu index must be non-negative"@),
                    Some(i) => if i >= len {
                        Err(
                            "menu index out of range (0.."@ + decimal(
                                if len > 0 {
                                    (len - 1) as nat
                                } else {
                                    0
                                },
                            ) + ")"@,
                        )
                    } else {
                        Ok(())
                    },
                }
            } else {
                Ok(())
            },
        }
    }
}

pub fn check_control_value(l: &ControlLimits, value: ControlValue, range: &RangeVerdict) -> (r: Result<(), String>)
    ensures
        match r {
            Ok(()) => control_value_check(*l, value, *range) == Ok::<(), Seq<char>>(()),
            Err(e) => control_value_check(*l, value, *range) == Err::<(), Seq<char>>(e@),
        },
{
    if l.read_only {
        return Err(owned("control is read-only"));
    }
    if value == ControlValue::Unset {
        return Ok(());
    }
    let fits = match (l.kind, value) {
        (ControlKind::Bool, ControlValue::Bool(_)) => true,
        (ControlKind::Int, ControlValue::Int(_)) => true,
        (ControlKind::Uint, ControlValue::Uint(_)) => true,
        (ControlKind::Float, ControlValue::Float { .. }) => true,
        (ControlKind::Menu, ControlValue::Uint(_)) => true,
        (ControlKind::IntMenu, ControlValue::Int(_)) => true,
        _ => false,
    };
    if !fits {
        return Err(owned("value type mismatch for control kind"));
    }
    match range {
        RangeVerdict::NotFinite => Err(owned("value is not finite")),
        RangeVerdict::OutOfRange { min, max } => {
            let mut message = owned("value out of range (min=");
            message.append(min.as_str());
            message.append(", max=");
            message.append(max.as_str());
            message.append(")");
            Err(message)
        },
        RangeVerdict::Within => {
            let is_menu = match l.kind {
                ControlKind::Menu | ControlKind::IntMenu => true,
                _ => false,
            };
            match (is_menu, l.menu_len) {
                (true, Some(len)) => {
                    let index: Option<u64> = match value {
                        ControlValue::Uint(x) => Some(x as u64),
                        ControlValue::Int(x) => if x >= 0 {
                            Some(x as u64)
                        } else {
                            None
                        },
                        _ => None,
                    };
                    match index {
                        None => Err(owned("menu index must be non-negative")),
                        Some(i) => if i >= len as u64 {
                            let mut message = owned("menu index out of range (0..");
                            let last: u64 = if len > 0 {
                                (len - 1) as u64
                            } else {
                                0
                            };
                            push_decimal(&mut message, last);
                            message.append(")");
                            Err(message)
                        } else {
                            Ok(())
                        },
                    }
                },
                _ => Ok(()),
            }
        },
    }
}

/// Controls held by increasing id, each id once.
pub open spec fn ids_ascending(s: Seq<ControlAssignment>) -> bool {
    forall|i: int, j: int| 0 <= i < j < s.len() ==> (#[trigger] s[i]).id < (#[trigger] s[j]).id
}

/// `x` put into a control list held by increasing id, replacing the value
/// of its id if the list has it.
pub open spec fn upserted(s: Seq<ControlAssignment>, x: ControlAssignment) -> Seq<ControlAssignment>
    decreases s.len(),
{
    if s.len() == 0 {
        seq![x]
    } else if s.last().id == x.id {
        s.drop_last().push(x)
    } else if s.last().id < x.id {
        s.push(x)
    } else {
        upserted(s.drop_last(), x).push(s.last())
    }
}

/// The controls of `s` merged into `m` in order, later values winning.
pub open spec fn merged_into(m: Seq<ControlAssignment>, s: Seq<ControlAssignment>) -> Seq<ControlAssignment>
    decreases s.len(),
{
    if s.len() == 0 {
        m
    } else {
        upserted(merged_into(m, s.drop_last()), s.last())
    }
}

pub proof fn lemma_upserted_ascending(s: Seq<ControlAssignment>, x: ControlAssignment)
    requires
        ids_ascending(s),
    ensures
        ids_ascending(upserted(s, x)),
        forall|i: int| 0 <= i < upserted(s, x).len() ==> (#[trigger] upserted(s, x)[i]).id == x.id || exists|j: int|
            0 <= j < s.len() && s[j].id == upserted(s, x)[i].id,
    decreases s.len(),
{
    if s.len() > 0 {
        let d = s.drop_last();
        assert(ids_ascending(d));
        if s.last().id == x.id {
            let r = upserted(s, x);
            assert forall|i: int| 0 <= i < r.len() implies (#[trigger] r[i]).id == x.id || exists|j: int|
                0 <= j < s.len() && s[j].id == r[i].id by {
                if i < d.len() {
                    assert(s[i] == r[i]);
                }
            }
        } else if s.last().id < x.id {
            let r = upserted(s, x);
            assert forall|i: int| 0 <= i < r.len() implies (#[trigger] r[i]).id == x.id || exists|j: int|
                0 <= j < s.len() && s[j].id == r[i].id by {
                if i < s.len() {
                    assert(s[i] == r[i]);
                }
            }
        } else {
            lemma_upserted_ascending(d, x);
            let u = upserted(d, x);
            let r = upserted(s, x);
            assert(r == u.push(s.last()));
            assert forall|i: int, j: int| 0 <= i < j < r.len() implies (#[trigger] r[i]).id < (#[trigger] r[j]).id by {
                if j == r.len() - 1 {
                    assert(r[j] == s.last());
                    assert(r[i] == u[i]);
                    if u[i].id != x.id {
                        let k = choose|k: int| 0 <= k < d.len() && d[k].id == u[i].id;
                        assert(d[k] == s[k]);
                    }
                } else {
                    assert(r[i] == u[i]);
                    assert(r[j] == u[j]);
                }
            }
            assert forall|i: int| 0 <= i < r.len() implies (#[trigger] r[i]).id == x.id || exists|j: int|
                0 <= j < s.len() && s[j].id == r[i].id by {
                if i < u.len() {
                    assert(r[i] == u[i]);
                    if u[i].id != x.id {
                        let k = choose|k: int| 0 <= k < d.len() && d[k].id == u[i].id;
                        assert(d[k] == s[k]);
                    }
                } else {
                    assert(r[i] == s[s.len() - 1]);
                }
            }
        }
    }
}

/// Merging keeps a control list held by increasing id, each id once.
pub proof fn lemma_merged_ascending(m: Seq<ControlAssignment>, s: Seq<ControlAssignment>)
    requires
        ids_ascending(m),
    ensures
        ids_ascending(merged_into(m, s)),
    decreases s.len(),
{
    if s.len() > 0 {
        lemma_merged_ascending(m, s.drop_last());
        lemma_upserted_ascending(merged_into(m, s.drop_last()), s.last());
    }
}

proof fn lemma_upsert_at(s: Seq<ControlAssignment>, x: ControlAssignment, p: int)
    requires
        0 <= p <= s.len(),
        forall|k: int| p <= k < s.len() ==> x.id < (#[trigger] s[k]).id,
        p == 0 || s[p - 1].id <= x.id,
    ensures
        upserted(s, x) == (if p > 0 && s[p - 1].id == x.id {
            s.update(p - 1, x)
        } else {
            s.subrange(0, p).push(x) + s.subrange(p, s.len() as int)
        }),
    decreases s.len(),
{
    if s.len() == 0 {
        assert(s.subrange(0, p).push(x) + s.subrange(p, s.len() as int) =~= seq![x]);
    } else if p == s.len() {
        if s.last().id == x.id {
            assert(s.drop_last().push(x) =~= s.update(p - 1, x));
        } else {
            assert(s.subrange(0, p).push(x) + s.subrange(p, s.len() as int) =~= s.push(x));
        }
    } else {
        let d = s.drop_last();
        assert forall|k: int| p <= k < d.len() implies x.id < (#[trigger] d[k]).id by {
            assert(d[k] == s[k]);
        }
        lemma_upsert_at(d, x, p);
        if p > 0 && s[p - 1].id == x.id {
            assert(d[p - 1] == s[p - 1]);
            assert(d.update(p - 1, x).push(s.last()) =~= s.update(p - 1, x));
        } else {
            if p > 0 {
                assert(d[p - 1] == s[p - 1]);
            }
            assert(s.subrange(0, p).push(x) + s.subrange(p, s.len() as int) =~= (d.subrange(0, p).push(x)
                + d.subrange(p, d.len() as int)).push(s.last()));
        }
    }
}

fn upsert_control(v: &mut Vec<ControlAssignment>, x: ControlAssignment)
    ensures
        final(v)@ == upserted(old(v)@, x),
{
    let ghost s = v@;
    let mut p: usize = v.len();
    while p > 0 && x.id < v[p - 1].id
        invariant
            p <= v@.len(),
            s == v@,
            forall|k: int| p <= k < v@.len() ==> x.id < (#[trigger] s[k]).id,
        decreases p,
    {
        p = p - 1;
    }
    proof {
        lemma_upsert_at(s, x, p as int);
    }
    if p > 0 && v[p - 1].id == x.id {
        v.set(p - 1, x);
    } else {
        v.insert(p, x);
        assert(v@ =~= s.subrange(0, p as int).push(x) + s.subrange(p as int, s.len() as int));
    }
}

fn merge_into(m: &mut Vec<ControlAssignment>, s: &Vec<ControlAssignment>)
    ensures
        final(m)@ == merged_into(old(m)@, s@),
{
    let mut i: usize = 0;
    while i < s.len()
        invariant
            i <= s@.len(),
            m@ == merged_into(old(m)@, s@.subrange(0, i as int)),
        decreases s@.len() - i,
    {
        assert(s@.subrange(0, i + 1).drop_last() =~= s@.subrange(0, i as int));
        upsert_control(m, s[i]);
        i = i + 1;
    }
    assert(s@.subrange(0, s@.len() as int) =~= s@);
}

/// A control as the running stream reports it.
#[derive(Debug, Clone, Copy, PartialEq, Eq, Structural)]
pub struct LiveControl {
    pub id: u32,
    pub read_only: bool,
    pub value: Option<ControlValue>,
    pub default: ControlValue,
}

/// The writable live controls, each with its value or else its default.
pub open spec fn live_assignments(ls: Seq<LiveControl>) -> Seq<ControlAssignment>
    decreases ls.len(),
{
    if ls.len() == 0 {
        Seq::empty()
    } else if ls.last().read_only {
        live_assignments(ls.drop_last())
    } else {
        live_assignments(ls.drop_last()).push(
            ControlAssignment {
                id: ls.last().id,
                value: match ls.last().value {
                    Some(v) => v,
                    None => ls.last().default,
                },
            },
        )
    }
}

fn writable_live(ls: &Vec<LiveControl>) -> (r: Vec<ControlAssignment>)
    ensures
        r@ == live_assignments(ls@),
{
    let mut out: Vec<ControlAssignment> = Vec::new();
    let mut i: usize = 0;
    while i < ls.len()
        invariant
            i <= ls@.len(),
            out@ == live_assignments(ls@.subrange(0, i as int)),
        decreases ls@.len() - i,
    {
        assert(ls@.subrange(0, i + 1).drop_last() =~= ls@.subrange(0, i as int));
        let c = ls[i];
        if !c.read_only {
            out.push(ControlAssignment { id: c.id, value: match c.value { Some(v) => v, None => c.default } });
        }
        i = i + 1;
    }
    assert(ls@.subrange(0, ls@.len() as int) =~= ls@);
    out
}

pub open spec fn without_id(s: Seq<ControlAssignment>, id: u32) -> Seq<ControlAssignment>
    decreases s.len(),
{
    if s.len() == 0 {
        Seq::empty()
    } else if s.last().id == id {
        without_id(s.drop_last(), id)
    } else {
        without_id(s.drop_last(), id).push(s.last())
    }
}

/// The controls a new stream starts with: the running stream's writable
/// values (not for libcamera), else the stored ones (for libcamera only
/// when the request sets none), then the request's own on top; a
/// libcamera stream with a frame rate drops its frame duration limits.
/// Nothing changes when there is nothing to merge.
pub open spec fn merged_controls(
    is_libcamera: bool,
    target_fps_set: bool,
    live: Option<Seq<LiveControl>>,
    base: Seq<ControlAssignment>,
    requested: Seq<ControlAssignment>,
) -> Option<Seq<ControlAssignment>> {
    let from_live = if !is_libcamera && live is Some {
        merged_into(Seq::empty(), live_assignments(live->0))
    } else {
        Seq::empty()
    };
    let preserve = is_libcamera && requested.len() == 0;
    let seeded = if from_live.len() == 0 && (!is_libcamera || preserve) {
        merged_into(Seq::empty(), base)
    } else {
        from_live
    };
    if seeded.len() == 0 && requested.len() == 0 {
        None
    } else {
        let all = merged_into(seeded, requested);
        Some(
            if is_libcamera && target_fps_set {
                without_id(all, LIBCAMERA_FRAME_DURATION_LIMITS)
            } else {
                all
            },
        )
    }
}

fn drop_control(v: &Vec<ControlAssignment>, id: u32) -> (r: Vec<ControlAssignment>)
    ensures
        r@ == without_id(v@, id),
{
    let mut out: Vec<ControlAssignment> = Vec::new();
    let mut i: usize = 0;
    while i < v.len()
        invariant
            i <= v@.len(),
            out@ == without_id(v@.subrange(0, i as int), id),
        decreases v@.len() - i,
    {
        assert(v@.subrange(0, i + 1).drop_last() =~= v@.subrange(0, i as int));
        if v[i].id != id {
            out.push(v[i]);
        }
        i = i + 1;
    }
    assert(v@.subrange(0, v@.len() as int) =~= v@);
    out
}

pub fn merge_capture_controls(
    is_libcamera: bool,
    target_fps_set: bool,
    live: Option<&Vec<LiveControl>>,
    base: &Vec<ControlAssignment>,
    requested: &Vec<ControlAssignment>,
) -> (r: Option<Vec<ControlAssignment>>)
    ensures
        match r {
            Some(v) => merged_controls(
                is_libcamera,
                target_fps_set,
                match live {
                    Some(l) => Some(l@),
                    None => None,
                },
                base@,
                requested@,
            ) == Some(v@),
            None => merged_controls(
                is_libcamera,
                target_fps_set,
                match live {
                    Some(l) => Some(l@),
                    None => None,
                },
                base@,
                requested@,
            ) is None,
        },
{
    let mut merged: Vec<ControlAssignment> = Vec::new();
    if !is_libcamera {
        match live {
            Some(l) => {
                let w = writable_live(l);
                merge_into(&mut merged, &w);
            },
            None => {},
        }
    }
    let preserve = is_libcamera && requested.len() == 0;
    if merged.len() == 0 && (!is_libcamera || preserve) {
        let mut fresh: Vec<ControlAssignment> = Vec::new();
        merge_into(&mut fresh, base);
        merged = fresh;
    }
    if merged.len() == 0 && requested.len() == 0 {
        return None;
    }
    merge_into(&mut merged, requested);
    if is_libcamera && target_fps_set {
        Some(drop_control(&merged, LIBCAMERA_FRAME_DURATION_LIMITS))
    } else {
        Some(merged)
    }
}

/// The frame rate a libcamera stream starts with when the request gives
/// none: the replaced stream's when the capture mode is the same and it is
/// within 1..=60, else 30. Other backends take the replaced stream's.
pub fn inherited_target_fps(is_libcamera: bool, requested: Option<u32>, base: Option<u32>, same_mode: bool) -> (r: Option<u32>)
    ensures
        r == (if requested is Some {
            requested
        } else if is_libcamera {
            if same_mode && (base matches Some(f) && 0 < f && f <= MAX_INHERITED_LIBCAMERA_TARGET_FPS) {
                base
            } else {
                Some(DEFAULT_LIBCAMERA_TARGET_FPS)
            }
        } else {
            base
        }),
{
    if requested.is_some() {
        return requested;
    }
    if !is_libcamera {
        return base;
    }
    if same_mode {
        match base {
            Some(f) => if 0 < f && f <= MAX_INHERITED_LIBCAMERA_TARGET_FPS {
                return base;
            },
            None => {},
        }
    }
    Some(DEFAULT_LIBCAMERA_TARGET_FPS)
}

/// Autostart is kept unless the replaced stream had it off: an update
/// never turns it off.
pub fn inherited_start_on_boot(requested: bool, base: bool) -> (r: bool)
    ensures
        r == (requested || base),
{
    requested || base
}

// ---------------------------------------------------------------------------
// The frame range of a file replay.

/// What the capture descriptor says of a control.
#[derive(Debug, Clone, PartialEq, Eq)]
pub struct ControlInfo {
    pub id: u32,
    pub name: String,
    pub default: ControlValue,
}

/// A value read as an unsigned count, when it is one.
pub open spec fn uint_like(v: ControlValue) -> Option<u64> {
    match v {
        ControlValue::Uint(x) => Some(x as u64),
        ControlValue::Int(x) => if x >= 0 {
            Some(x as u64)
        } else {
            None
        },
        _ => None,
    }
}

pub fn uint_like_value(v: ControlValue) -> (r: Option<u64>)
    ensures
        r == uint_like(v),
{
    match v {
        ControlValue::Uint(x) => Some(x as u64),
        ControlValue::Int(x) => if x >= 0 {
            Some(x as u64)
        } else {
            None
        },
        _ => None,
    }
}

/// The first control named `name`, from index `i` on, or the length.
pub open spec fn named_from(cs: Seq<ControlInfo>, name: Seq<char>, i: int) -> int
    decreases cs.len() - i,
{
    if i < 0 || i >= cs.len() {
        cs.len() as int
    } else if cs[i].name@ == name {
        i
    } else {
        named_from(cs, name, i + 1)
    }
}

/// The first control with id `id`, from index `i` on, or the length.
pub open spec fn info_from(cs: Seq<ControlInfo>, id: u32, i: int) -> int
    decreases cs.len() - i,
{
    if i < 0 || i >= cs.len() {
        cs.len() as int
    } else if cs[i].id == id {
        i
    } else {
        info_from(cs, id, i + 1)
    }
}

/// The value the manifest sets for control `id` (its first entry), if any.
pub open spec fn assigned_from(cs: Seq<ControlAssignment>, id: u32, i: int) -> Option<ControlValue>
    decreases cs.len() - i,
{
    if i < 0 || i >= cs.len() {
        None
    } else if cs[i].id == id {
        Some(cs[i].value)
    } else {
        assigned_from(cs, id, i + 1)
    }
}

pub open spec fn suffix_split(name: Seq<char>, suffix: Seq<char>) -> Option<Seq<char>> {
    if ends_with(name, suffix) {
        Some(name.subrange(0, name.len() - suffix.len()))
    } else {
        None
    }
}

/// A replay's start frame may not pass its stop frame, nor the stop frame
/// its start: setting one past the other moves the other along. Gives the
/// sibling control and its new value when it has to move.
pub open spec fn frame_range_adjustment(
    infos: Seq<ControlInfo>,
    assigned: Seq<ControlAssignment>,
    control_id: u32,
    value: ControlValue,
) -> Option<(u32, ControlValue)> {
    let t = info_from(infos, control_id, 0);
    if t >= infos.len() || uint_like(value) is None {
        None
    } else {
        let name = trim(infos[t].name@);
        let new_value = uint_like(value)->0;
        let (prefix, is_start) = if suffix_split(name, ".start_frame"@) is Some {
            (suffix_split(name, ".start_frame"@), true)
        } else {
            (suffix_split(name, ".stop_frame"@), false)
        };
        match prefix {
            None => None,
            Some(p) => {
                let sibling_name = p + if is_start {
                    ".stop_frame"@
                } else {
                    ".start_frame"@
                };
                let si = named_from(infos, sibling_name, 0);
                if si >= infos.len() {
                    None
                } else {
                    let sib = infos[si];
                    let current = match assigned_from(assigned, sib.id, 0) {
                        Some(v) => uint_like(v),
                        None => None,
                    };
                    let sibling_value = if current is Some {
                        current
                    } else {
                        uint_like(sib.default)
                    };
                    match sibling_value {
                        None => None,
                        Some(sv) => if (is_start && new_value > sv) || (!is_start && new_value < sv) {
                            Some((sib.id, ControlValue::Uint(new_value as u32)))
                        } else {
                            None
                        },
                    }
                }
            },
        }
    }
}

fn find_info_id(cs: &Vec<ControlInfo>, id: u32) -> (r: usize)
    ensures
        r == info_from(cs@, id, 0),
{
    let mut i: usize = 0;
    while i < cs.len()
        invariant
            i <= cs@.len(),
            info_from(cs@, id, 0) == info_from(cs@, id, i as int),
        decreases cs@.len() - i,
    {
        if cs[i].id == id {
            return i;
        }
        i = i + 1;
    }
    i
}

fn find_info_name(cs: &Vec<ControlInfo>, name: &str) -> (r: usize)
    ensures
        r == named_from(cs@, name@, 0),
{
    let mut i: usize = 0;
    while i < cs.len()
        invariant
            i <= cs@.len(),
            named_from(cs@, name@, 0) == named_from(cs@, name@, i as int),
        decreases cs@.len() - i,
    {
        if seq_eq(cs[i].name.as_str(), name) {
            return i;
        }
        i = i + 1;
    }
    i
}

fn find_assigned(cs: &Vec<ControlAssignment>, id: u32) -> (r: Option<ControlValue>)
    ensures
        r == assigned_from(cs@, id, 0),
{
    let mut i: usize = 0;
    while i < cs.len()
        invariant
            i <= cs@.len(),
            assigned_from(cs@, id, 0) == assigned_from(cs@, id, i as int),
        decreases cs@.len() - i,
    {
        if cs[i].id == id {
            return Some(cs[i].value);
        }
        i = i + 1;
    }
    None
}

fn split_suffix(name: &str, suffix: &str) -> (r: Option<String>)
    ensures
        match r {
            Some(p) => suffix_split(name@, suffix@) == Some(p@),
            None => suffix_split(name@, suffix@) is None,
        },
{
    if ends_with_str(name, suffix) {
        let n = name.unicode_len();
        let m = suffix.unicode_len();
        Some(substring(name, 0, n - m))
    } else {
        None
    }
}

pub fn replay_frame_range_adjustment(
    infos: &Vec<ControlInfo>,
    assigned: &Vec<ControlAssignment>,
    control_id: u32,
    value: ControlValue,
) -> (r: Option<(u32, ControlValue)>)
    ensures
        r == frame_range_adjustment(infos@, assigned@, control_id, value),
{
    let t = find_info_id(infos, control_id);
    if t >= infos.len() {
        return None;
    }
    let new_value = match uint_like_value(value) {
        Some(v) => v,
        None => return None,
    };
    let name = trim_str(infos[t].name.as_str());
    let (prefix, is_start) = match split_suffix(name, ".start_frame") {
        Some(p) => (Some(p), true),
        None => (split_suffix(name, ".stop_frame"), false),
    };
    let p = match prefix {
        None => return None,
        Some(p) => p,
    };
    let mut sibling_name = p;
    if is_start {
        sibling_name.append(".stop_frame");
    } else {
        sibling_name.append(".start_frame");
    }
    let si = find_info_name(infos, sibling_name.as_str());
    if si >= infos.len() {
        return None;
    }
    let sib_id = infos[si].id;
    let current = match find_assigned(assigned, sib_id) {
        Some(v) => uint_like_value(v),
        None => None,
    };
    let sibling_value = if current.is_some() {
        current
    } else {
        uint_like_value(infos[si].default)
    };
    match sibling_value {
        None => None,
        Some(sv) => if (is_start && new_value > sv) || (!is_start && new_value < sv) {
            Some((sib_id, ControlValue::Uint(new_value as u32)))
        } else {
            None
        },
    }
}

/// The controls a set-control request applies, in order: the sibling that
/// has to move first, then the control itself.
pub fn controls_to_apply(adjusted: Option<(u32, ControlValue)>, control_id: u32, value: ControlValue) -> (r: Vec<(u32, ControlValue)>)
    ensures
        r@ == (match adjusted {
            Some(p) => seq![p, (control_id, value)],
            None => seq![(control_id, value)],
        }),
{
    let mut out: Vec<(u32, ControlValue)> = Vec::new();
    match adjusted {
        Some(p) => out.push(p),
        None => {},
    }
    out.push((control_id, value));
    assert(out@ =~= (match adjusted {
        Some(p) => seq![p, (control_id, value)],
        None => seq![(control_id, value)],
    }));
    out
}

/// A noise-reduction change on a libcamera stream is not applied live: the
/// capture is reconfigured (restarted) with the control in its manifest,
/// since a live toggle can freeze or crash libcamera.
pub fn control_requires_restart(control_id: u32, backend: Option<crate::streams::validation::BackendKind>) -> (r: bool)
    ensures
        r == (control_id == crate::streams::lifecycle::LIBCAMERA_NOISE_REDUCTION_MODE && backend == Some(
            crate::streams::validation::BackendKind::Libcamera,
        )),
{
    control_id == crate::streams::lifecycle::LIBCAMERA_NOISE_REDUCTION_MODE && match backend {
        Some(crate::streams::validation::BackendKind::Libcamera) => true,
        _ => false,
    }
}

/// A file replay whose control timed out (`504`) recovers by restarting
/// with the intended controls; any other failure is answered as is.
pub fn replay_restart_on_control_failure(is_file_backend: bool, status: u16) -> (r: bool)
    ensures
        r == (is_file_backend && status == 504),
{
    is_file_backend && status == 504
}

/// A writable control takes, within its range, every value of its own
/// kind: a boolean for a boolean control, a signed integer for an integer
/// one, an unsigned integer for an unsigned one, a float for a float one,
/// and the index of a listed entry (any index when the entries are not
/// listed; unsigned for a menu, not negative for an integer menu) for a
/// menu. A value of another kind is refused as a type
/// mismatch, whatever the range says; a value that is not finite or out of
/// range is refused, and so is an index past the listed menu entries or a
/// negative one; clearing is always allowed; a read-only control takes
/// nothing.
pub proof fn law_controls_take_values_of_their_kind(l: ControlLimits, v: ControlValue, range: RangeVerdict)
    ensures
        l.read_only ==> control_value_check(l, v, range) == Err::<(), Seq<char>>("control is read-only"@),
        !l.read_only && v == ControlValue::Unset ==> control_value_check(l, v, range) == Ok::<(), Seq<char>>(()),
        !l.read_only && range == RangeVerdict::Within && ((l.kind == ControlKind::Bool && v is Bool) || (l.kind
            == ControlKind::Int && v is Int) || (l.kind == ControlKind::Uint && v is Uint) || (l.kind
            == ControlKind::Float && v is Float)) ==> control_value_check(l, v, range) == Ok::<(), Seq<char>>(()),
        !l.read_only && range == RangeVerdict::Within && l.kind == ControlKind::Menu && v is Uint && (l.menu_len
            is None || (v->Uint_0 as int) < (l.menu_len->0 as int)) ==> control_value_check(l, v, range) == Ok::<
            (),
            Seq<char>,
        >(()),
        !l.read_only && range == RangeVerdict::Within && l.kind == ControlKind::IntMenu && v is Int && v->Int_0
            >= 0 && (l.menu_len is None || (v->Int_0 as int) < (l.menu_len->0 as int)) ==> control_value_check(
            l,
            v,
            range,
        ) == Ok::<(), Seq<char>>(()),
        !l.read_only && v != ControlValue::Unset && !((l.kind == ControlKind::Bool && v is Bool) || (l.kind
            == ControlKind::Int && v is Int) || (l.kind == ControlKind::Uint && v is Uint) || (l.kind
            == ControlKind::Float && v is Float) || (l.kind == ControlKind::Menu && v is Uint) || (l.kind
            == ControlKind::IntMenu && v is Int)) ==> control_value_check(l, v, range) == Err::<(), Seq<char>>(
            "value type mismatch for control kind"@,
        ),
        !l.read_only && v != ControlValue::Unset && range != RangeVerdict::Within ==> control_value_check(
            l,
            v,
            range,
        ) is Err,
        !l.read_only && (l.kind == ControlKind::Menu || l.kind == ControlKind::IntMenu) && l.menu_len is Some && (
        v matches ControlValue::Uint(x) && x as int >= l.menu_len->0 as int) ==> control_value_check(l, v, range) is Err,
        !l.read_only && (l.kind == ControlKind::Menu || l.kind == ControlKind::IntMenu) && l.menu_len is Some && (
        v matches ControlValue::Int(x) && (x < 0 || x as int >= l.menu_len->0 as int)) ==> control_value_check(
            l,
            v,
            range,
        ) is Err,
{
}

} // verus!
