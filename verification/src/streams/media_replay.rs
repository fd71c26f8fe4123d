//! Replaying stored media as a stream: the checks on the request, the
//! automatic choice of a stream's captures, the media names, and the
//! pipeline part of the replay manifest.
use vstd::prelude::*;
use crate::recording::options::clamp;
use crate::storage::paths::{sanitize_name, sanitized};
use crate::streams::engine_reply::{
    body_is, engine_error_body, EngineErrorCode, HttpReply,
};
use crate::streams::manifest::{
    LayoutSlot, PipelineConfig, PipelineLayout, ReservedPipelineIds,
};
use crate::streams::outputs::{norm_out, normalized_output_value};
use crate::streams::validation::{uuid_string, uuid_text};
use vstd::string::*;
use vstd::utf8::encode_utf8;
use crate::text::{
    contains, contains_str, ends_with, ends_with_str, last_index_of, lower_seq, owned, seq_eq,
    to_lower, trim, trim_str, views,
};

verus! {

/// The request that replays stored media files as a stream.
#[derive(Debug, Clone, PartialEq, Eq)]
pub struct MediaReplayRequest {
    pub files: Vec<String>,
    pub stream_id: Option<u128>,
    pub kind: Option<String>,
    pub fps: Option<u32>,
    pub loop_forever: Option<bool>,
    pub alias: Option<String>,
}

pub open spec fn str_opt(o: Option<String>) -> Option<Seq<char>> {
    match o {
        Some(s) => Some(s@),
        None => None,
    }
}

pub open spec fn refused(r: HttpReply, status: u16, code: EngineErrorCode, message: Seq<char>) -> bool {
    r.status == status && body_is(r.body, code, message)
}

fn refuse(status: u16, code: EngineErrorCode, message: String) -> (r: HttpReply)
    ensures
        refused(r, status, code, message@),
{
    HttpReply { status, body: Some(engine_error_body(Some(code), message)) }
}

pub open spec fn alias_too_long(alias: Option<String>) -> bool {
    alias matches Some(a) && trim(a@).len() > 0 && (encode_utf8(trim(a@)).len() as usize) > 96
}

pub open spec fn fps_out_of_range(fps: Option<u32>) -> bool {
    fps matches Some(f) && !(1 <= f && f <= 240)
}

/// At most 64 files, a frame rate within 1..=240 when given, an alias of at
/// most 96 bytes once trimmed; the first rule broken is reported.
pub fn check_media_replay_request(req: &MediaReplayRequest) -> (r: Result<(), HttpReply>)
    ensures
        r is Ok <==> (req.files@.len() <= 64 && !fps_out_of_range(req.fps) && !alias_too_long(req.alias)),
        req.files@.len() > 64 ==> (r matches Err(e) && refused(e, 400, EngineErrorCode::InvalidInput, "too many files (max 64)"@)),
        req.files@.len() <= 64 && fps_out_of_range(req.fps) ==> (r matches Err(e)
            && refused(e, 400, EngineErrorCode::InvalidInput, "fps must be between 1 and 240"@)),
        req.files@.len() <= 64 && !fps_out_of_range(req.fps) && alias_too_long(req.alias) ==> (r matches Err(e)
            && refused(e, 400, EngineErrorCode::InvalidInput, "alias is too long (max 96 chars)"@)),
{
    if req.files.len() > 64 {
        return Err(refuse(400, EngineErrorCode::InvalidInput, owned("too many files (max 64)")));
    }
    match req.fps {
        Some(f) => if !(1 <= f && f <= 240) {
            return Err(refuse(400, EngineErrorCode::InvalidInput, owned("fps must be between 1 and 240")));
        },
        None => {},
    }
    match &req.alias {
        Some(a) => {
            let t = trim_str(a.as_str());
            let bytes = t.len();
            if t.unicode_len() > 0 && bytes > 96 {
                return Err(refuse(400, EngineErrorCode::InvalidInput, owned("alias is too long (max 96 chars)")));
            }
        },
        None => {},
    }
    Ok(())
}

/// Where the files of a replay come from.
#[derive(Debug, Clone, Copy, PartialEq, Eq)]
pub enum ReplaySource {
    /// The files the request names.
    Files,
    /// The captures of this stream.
    StreamCaptures(u128),
}

/// The files the request names, else the captures of its stream; a request
/// with neither is refused.
pub fn replay_source(req: &MediaReplayRequest) -> (r: Result<ReplaySource, HttpReply>)
    ensures
        req.files@.len() > 0 ==> (r matches Ok(ReplaySource::Files)),
        req.files@.len() == 0 && req.stream_id is Some ==> (r matches Ok(ReplaySource::StreamCaptures(s))
            && Some(s) == req.stream_id),
        req.files@.len() == 0 && req.stream_id is None ==> (r matches Err(e)
            && refused(e, 400, EngineErrorCode::InvalidInput, "provide either files or streamId"@)),
{
    if req.files.len() > 0 {
        return Ok(ReplaySource::Files);
    }
    match req.stream_id {
        Some(id) => Ok(ReplaySource::StreamCaptures(id)),
        None => Err(refuse(400, EngineErrorCode::InvalidInput, owned("provide either files or streamId"))),
    }
}

// ---------------------------------------------------------------------------
// Choosing a stream's captures.

/// What the media metadata of a file says.
#[derive(Debug, Clone, PartialEq, Eq)]
pub struct MediaMetadataFacts {
    pub stream_id: Option<u128>,
    pub kind: Option<String>,
    pub captured_at_ms: Option<i64>,
}

/// One entry of the media directory, with its metadata if it has any.
#[derive(Debug, Clone, PartialEq, Eq)]
pub struct MediaEntry {
    pub name: String,
    pub is_file: bool,
    pub size_bytes: u64,
    pub metadata: Option<MediaMetadataFacts>,
}

/// A media file belongs to the selection: a non-empty file that is not a
/// metadata file, captured by the stream, of the kind asked for.
pub open spec fn entry_selected(e: MediaEntry, stream_id: u128, kind: Seq<char>) -> bool {
    &&& e.is_file
    &&& e.size_bytes > 0
    &&& !ends_with(e.name@, ".json"@)
    &&& e.metadata matches Some(md)
    &&& md.stream_id == Some(stream_id)
    &&& str_opt(md.kind) == Some(kind)
}

pub open spec fn entry_time(e: MediaEntry) -> i64 {
    match e.metadata {
        Some(md) => match md.captured_at_ms {
            Some(t) => t,
            None => 0,
        },
        None => 0,
    }
}

/// The selected entries of the first `n`, as (capture time, name), in order.
pub open spec fn selected(es: Seq<MediaEntry>, stream_id: u128, kind: Seq<char>, n: int) -> Seq<(i64, Seq<char>)>
    decreases n,
{
    if n <= 0 {
        Seq::empty()
    } else if entry_selected(es[n - 1], stream_id, kind) {
        selected(es, stream_id, kind, n - 1).push((entry_time(es[n - 1]), es[n - 1].name@))
    } else {
        selected(es, stream_id, kind, n - 1)
    }
}

/// `x` put into `s` after every element whose time is not later.
pub open spec fn insert_by_time(s: Seq<(i64, Seq<char>)>, x: (i64, Seq<char>)) -> Seq<(i64, Seq<char>)>
    decreases s.len(),
{
    if s.len() == 0 {
        seq![x]
    } else if x.0 < s.last().0 {
        insert_by_time(s.drop_last(), x).push(s.last())
    } else {
        s.push(x)
    }
}

/// The stable sort by time: equal times keep their order.
pub open spec fn sort_by_time(s: Seq<(i64, Seq<char>)>) -> Seq<(i64, Seq<char>)>
    decreases s.len(),
{
    if s.len() == 0 {
        Seq::empty()
    } else {
        insert_by_time(sort_by_time(s.drop_last()), s.last())
    }
}

/// No item comes after one with a later time.
pub open spec fn ordered_by_time(s: Seq<(i64, Seq<char>)>) -> bool {
    forall|i: int, j: int| 0 <= i < j < s.len() ==> (#[trigger] s[i]).0 <= (#[trigger] s[j]).0
}

proof fn lemma_insert_bounded(s: Seq<(i64, Seq<char>)>, x: (i64, Seq<char>), b: i64)
    requires
        forall|k: int| 0 <= k < s.len() ==> (#[trigger] s[k]).0 <= b,
        x.0 <= b,
    ensures
        insert_by_time(s, x).len() == s.len() + 1,
        forall|k: int|
            0 <= k < insert_by_time(s, x).len() ==> (#[trigger] insert_by_time(s, x)[k]).0 <= b,
    decreases s.len(),
{
    if s.len() > 0 && x.0 < s.last().0 {
        let d = s.drop_last();
        assert forall|k: int| 0 <= k < d.len() implies (#[trigger] d[k]).0 <= b by {
            assert(d[k] == s[k]);
        }
        lemma_insert_bounded(d, x, b);
    }
}

proof fn lemma_insert_ordered(s: Seq<(i64, Seq<char>)>, x: (i64, Seq<char>))
    requires
        ordered_by_time(s),
    ensures
        ordered_by_time(insert_by_time(s, x)),
        insert_by_time(s, x).to_multiset() =~= s.to_multiset().insert(x),
    decreases s.len(),
{
    broadcast use vstd::seq_lib::group_to_multiset_ensures;

    if s.len() == 0 {
        assert(seq![x] =~= s.push(x));
    } else if x.0 < s.last().0 {
        let d = s.drop_last();
        let last = s.last();
        assert(ordered_by_time(d)) by {
            assert forall|i: int, j: int| 0 <= i < j < d.len() implies (#[trigger] d[i]).0 <= (
            #[trigger] d[j]).0 by {
                assert(d[i] == s[i] && d[j] == s[j]);
            }
        }
        assert forall|k: int| 0 <= k < d.len() implies (#[trigger] d[k]).0 <= last.0 by {
            assert(d[k] == s[k] && last == s[s.len() - 1]);
        }
        lemma_insert_ordered(d, x);
        lemma_insert_bounded(d, x, last.0);
        let r = insert_by_time(d, x);
        assert(insert_by_time(s, x) == r.push(last));
        assert(s =~= d.push(last));
        assert forall|i: int, j: int| 0 <= i < j < r.push(last).len() implies (#[trigger] r.push(
            last,
        )[i]).0 <= (#[trigger] r.push(last)[j]).0 by {
            if j == r.len() {
                assert(r.push(last)[i] == r[i]);
            } else {
                assert(r.push(last)[i] == r[i] && r.push(last)[j] == r[j]);
            }
        }
    } else {
        assert forall|i: int, j: int| 0 <= i < j < s.push(x).len() implies (#[trigger] s.push(
            x,
        )[i]).0 <= (#[trigger] s.push(x)[j]).0 by {
            if j == s.len() {
                assert(s.push(x)[i] == s[i]);
                if i < s.len() - 1 {
                    assert(s[i].0 <= s[s.len() - 1].0);
                }
            } else {
                assert(s.push(x)[i] == s[i] && s.push(x)[j] == s[j]);
            }
        }
    }
}

/// The order in which a replay plays its captures is a sort by time: it
/// holds the same entries, each as often, and none comes after a later one.
pub proof fn law_replay_order_is_a_sort(s: Seq<(i64, Seq<char>)>)
    ensures
        ordered_by_time(sort_by_time(s)),
        sort_by_time(s).to_multiset() =~= s.to_multiset(),
    decreases s.len(),
{
    broadcast use vstd::seq_lib::group_to_multiset_ensures;

    if s.len() > 0 {
        law_replay_order_is_a_sort(s.drop_last());
        lemma_insert_ordered(sort_by_time(s.drop_last()), s.last());
        assert(s =~= s.drop_last().push(s.last()));
    }
}

proof fn lemma_insert_at(s: Seq<(i64, Seq<char>)>, x: (i64, Seq<char>), p: int)
    requires
        0 <= p <= s.len(),
        forall|k: int| p <= k < s.len() ==> x.0 < (#[trigger] s[k]).0,
        p == 0 || !(x.0 < s[p - 1].0),
    ensures
        insert_by_time(s, x) == s.subrange(0, p).push(x) + s.subrange(p, s.len() as int),
    decreases s.len(),
{
    if s.len() == 0 {
        assert(s.subrange(0, p).push(x) + s.subrange(p, s.len() as int) =~= seq![x]);
    } else if p == s.len() {
        assert(s.subrange(0, p).push(x) + s.subrange(p, s.len() as int) =~= s.push(x));
    } else {
        let d = s.drop_last();
        assert forall|k: int| p <= k < d.len() implies x.0 < (#[trigger] d[k]).0 by {
            assert(d[k] == s[k]);
        }
        lemma_insert_at(d, x, p);
        assert(s.subrange(0, p).push(x) + s.subrange(p, s.len() as int) =~= (d.subrange(0, p).push(x)
            + d.subrange(p, d.len() as int)).push(s.last()));
    }
}

fn insert_sorted(v: &mut Vec<(i64, String)>, x: (i64, String))
    ensures
        pair_views(final(v)@) == insert_by_time(pair_views(old(v)@), (x.0, x.1@)),
{
    let ghost sv = pair_views(v@);
    let mut p: usize = v.len();
    while p > 0 && x.0 < v[p - 1].0
        invariant
            p <= v@.len(),
            sv == pair_views(v@),
            forall|k: int| p <= k < v@.len() ==> x.0 < (#[trigger] sv[k]).0,
        decreases p,
    {
        assert(sv[p - 1] == (v@[p - 1].0, v@[p - 1].1@));
        p = p - 1;
    }
    proof {
        if p > 0 {
            assert(sv[p - 1] == (v@[p - 1].0, v@[p - 1].1@));
        }
        lemma_insert_at(sv, (x.0, x.1@), p as int);
    }
    let ghost xv = (x.0, x.1@);
    v.insert(p, x);
    assert(pair_views(v@) =~= sv.subrange(0, p as int).push(xv) + sv.subrange(p as int, sv.len() as int));
}

pub open spec fn pair_views(s: Seq<(i64, String)>) -> Seq<(i64, Seq<char>)> {
    s.map_values(|p: (i64, String)| (p.0, p.1@))
}

/// The kind the selection looks for: the request's, trimmed, or `calibration`.
pub open spec fn selection_kind(kind: Option<Seq<char>>) -> Seq<char> {
    match norm_out(kind) {
        Some(k) => k,
        None => "calibration"@,
    }
}

/// The media names a replay of a stream's captures plays: the stream's
/// files of the kind asked for, oldest first; refused when there is none.
pub fn select_stream_media(entries: &Vec<MediaEntry>, stream_id: u128, kind: &Option<String>) -> (r: Result<Vec<String>, HttpReply>)
    ensures
        ({
            let k = selection_kind(str_opt(*kind));
            let sorted = sort_by_time(selected(entries@, stream_id, k, entries@.len() as int));
            match r {
                Ok(names) => sorted.len() > 0 && views(names@) == sorted.map_values(|p: (i64, Seq<char>)| p.1),
                Err(e) => sorted.len() == 0 && refused(
                    e,
                    404,
                    EngineErrorCode::NotFound,
                    "no media matched streamId="@ + uuid_text(stream_id) + " kind="@ + k,
                ),
            }
        }),
{
    let k = match normalized_output_value(kind) {
        Some(k) => k,
        None => owned("calibration"),
    };
    let ghost kv = k@;
    let mut sorted: Vec<(i64, String)> = Vec::new();
    let mut i: usize = 0;
    while i < entries.len()
        invariant
            kv == k@,
            i <= entries@.len(),
            pair_views(sorted@) == sort_by_time(selected(entries@, stream_id, kv, i as int)),
        decreases entries@.len() - i,
    {
        let e = &entries[i];
        let mut pick = false;
        let mut time: i64 = 0;
        if e.is_file && e.size_bytes > 0 && !ends_with_str(e.name.as_str(), ".json") {
            match &e.metadata {
                Some(md) => {
                    let same_kind = match &md.kind {
                        Some(mk) => seq_eq(mk.as_str(), k.as_str()),
                        None => false,
                    };
                    if md.stream_id == Some(stream_id) && same_kind {
                        pick = true;
                        time = match md.captured_at_ms {
                            Some(t) => t,
                            None => 0,
                        };
                    }
                },
                None => {},
            }
        }
        assert(pick == entry_selected(entries@[i as int], stream_id, kv));
        if pick {
            let ghost prev = selected(entries@, stream_id, kv, i as int);
            insert_sorted(&mut sorted, (time, e.name.clone()));
            assert(selected(entries@, stream_id, kv, i + 1) == prev.push((entry_time(entries@[i as int]), entries@[i as int].name@)));
            assert(selected(entries@, stream_id, kv, i + 1).drop_last() =~= prev);
        }
        i = i + 1;
    }
    if sorted.len() == 0 {
        let mut message = owned("no media matched streamId=");
        message.append(uuid_string(stream_id).as_str());
        message.append(" kind=");
        message.append(k.as_str());
        return Err(refuse(404, EngineErrorCode::NotFound, message));
    }
    let mut names: Vec<String> = Vec::new();
    let mut j: usize = 0;
    let ghost sv = pair_views(sorted@);
    while j < sorted.len()
        invariant
            sv == pair_views(sorted@),
            j <= sorted@.len(),
            views(names@) == sv.subrange(0, j as int).map_values(|p: (i64, Seq<char>)| p.1),
        decreases sorted@.len() - j,
    {
        assert(sv[j as int] == (sorted@[j as int].0, sorted@[j as int].1@));
        let ghost before = views(names@);
        let nm = sorted[j].1.clone();
        names.push(nm);
        assert(views(names@) =~= before.push(nm@));
        assert(sv.subrange(0, j + 1).map_values(|p: (i64, Seq<char>)| p.1) =~= sv.subrange(0, j as int).map_values(
            |p: (i64, Seq<char>)| p.1,
        ).push(sv[j as int].1));
        j = j + 1;
    }
    assert(sv.subrange(0, sv.len() as int) =~= sv);
    Ok(names)
}

// ---------------------------------------------------------------------------
// Media names.

pub open spec fn name_shape_ok(raw: Seq<char>) -> bool {
    let t = trim(raw);
    t.len() > 0 && !contains(t, "/"@) && !contains(t, "\\"@) && !contains(t, ".."@)
}

/// A media name to replay: not blank, no path separators, no `..`, and a
/// file name once sanitized.
pub fn check_replay_media_name(raw: &str) -> (r: Result<String, HttpReply>)
    ensures
        match r {
            Ok(name) => name_shape_ok(raw@) && sanitized(raw@) == Some(name@),
            Err(e) => !(name_shape_ok(raw@) && sanitized(raw@) is Some) && refused(
                e,
                400,
                EngineErrorCode::InvalidInput,
                "invalid media name: "@ + raw@,
            ),
        },
{
    let t = trim_str(raw);
    let shape = t.unicode_len() > 0 && !contains_str(t, "/") && !contains_str(t, "\\") && !contains_str(t, "..");
    if shape {
        match sanitize_name(raw) {
            Some(name) => return Ok(name),
            None => {},
        }
    }
    let mut message = owned("invalid media name: ");
    message.append(raw);
    Err(refuse(400, EngineErrorCode::InvalidInput, message))
}

/// The codec a raw Annex-B file name implies by its extension (the text
/// after the last `.`, trimmed, any case).
pub open spec fn annexb_hint(name: Seq<char>) -> Option<Seq<char>> {
    let last = match last_index_of(name, '.') {
        Some(i) => name.subrange(i + 1, name.len() as int),
        None => name,
    };
    let e = lower_seq(trim(last));
    if e == "h264"@ || e == "avc"@ {
        Some("h264"@)
    } else if e == "h265"@ || e == "hevc"@ {
        Some("hevc"@)
    } else {
        None
    }
}

pub fn raw_annexb_format_hint(name: &str) -> (r: Option<&'static str>)
    ensures
        match r {
            Some(h) => annexb_hint(name@) == Some(h@),
            None => annexb_hint(name@) is None,
        },
{
    let n = name.unicode_len();
    let last = match crate::text::rfind_char(name, '.') {
        Some(i) => name.substring_char(i + 1, n),
        None => name,
    };
    let e = to_lower(trim_str(last));
    if seq_eq(e.as_str(), "h264") || seq_eq(e.as_str(), "avc") {
        Some("h264")
    } else if seq_eq(e.as_str(), "h265") || seq_eq(e.as_str(), "hevc") {
        Some("hevc")
    } else {
        None
    }
}

/// Raw Annex-B files are no longer replayed.
pub fn annexb_refusal(name: &str) -> (r: HttpReply)
    ensures
        refused(
            r,
            400,
            EngineErrorCode::InvalidInput,
            "raw annex-b replay is no longer supported for "@ + name@
                + "; containerize the capture as mp4 first"@,
        ),
{
    let mut message = owned("raw annex-b replay is no longer supported for ");
    message.append(name);
    message.append("; containerize the capture as mp4 first");
    refuse(400, EngineErrorCode::InvalidInput, message)
}

// ---------------------------------------------------------------------------
// The replay stream.

/// The frame rate of a replay: the one asked for, else the (rounded) rate
/// of the first file that has one, else 30; kept within 1..=240.
pub fn replay_fps(requested: Option<u32>, inferred: Option<u32>) -> (r: u32)
    ensures
        r == clamp(
            match requested {
                Some(f) => f as int,
                None => match inferred {
                    Some(f) => f as int,
                    None => 30,
                },
            },
            1,
            240,
        ),
{
    let f = match requested {
        Some(f) => f,
        None => match inferred {
            Some(f) => f,
            None => 30,
        },
    };
    if f < 1 {
        1
    } else if f > 240 {
        240
    } else {
        f
    }
}

/// The stream whose calibration a replay takes: the one asked for, else the
/// one stream that all the files' metadata name, if they name exactly one.
pub fn replay_source_stream(requested: Option<u128>, inferred: &Vec<u128>) -> (r: Option<u128>)
    ensures
        requested is Some ==> r == requested,
        requested is None ==> (r is Some <==> (inferred@.len() > 0 && forall|k: int|
            0 <= k < inferred@.len() ==> #[trigger] inferred@[k] == inferred@[0])),
        requested is None && r is Some ==> r == Some(inferred@[0]),
{
    if requested.is_some() {
        return requested;
    }
    if inferred.len() == 0 {
        return None;
    }
    let first = inferred[0];
    let mut i: usize = 1;
    while i < inferred.len()
        invariant
            requested is None,
            1 <= i <= inferred@.len(),
            first == inferred@[0],
            forall|k: int| 0 <= k < i ==> inferred@[k] == first,
        decreases inferred@.len() - i,
    {
        if inferred[i] != first {
            return None;
        }
        i = i + 1;
    }
    Some(first)
}

/// The alias of a replay stream: the one asked for, trimmed, else
/// `media-replay-` and a fresh id.
pub fn replay_alias_or(alias: &Option<String>, fresh: u128) -> (r: String)
    ensures
        r@ == (match norm_out(str_opt(*alias)) {
            Some(a) => a,
            None => "media-replay-"@ + uuid_text(fresh),
        }),
{
    match normalized_output_value(alias) {
        Some(a) => a,
        None => {
            let mut out = owned("media-replay-");
            out.append(uuid_string(fresh).as_str());
            out
        },
    }
}

/// The pipeline part of a replay manifest: pipelines on, none bound, the
/// RAW pipeline's `raw` output active and shown in a one-cell grid.
pub fn media_replay_pipeline(ids: &ReservedPipelineIds) -> (r: PipelineConfig)
    ensures
        r.pipeline_enabled,
        r.pipelines@.len() == 0,
        r.active_pipeline_id == Some(ids.raw),
        crate::streams::manifest::opt_view(r.active_pipeline_output) == Some("raw"@),
        r.pipeline_layout matches Some(l) && l.rows == 1 && l.columns == 1 && l.slots@.len() == 1
            && l.slots@[0]@ == (crate::streams::manifest::SlotView {
                row: 0,
                column: 0,
                pipeline_id: Some(ids.raw),
                output_key: Some("raw"@),
            }),
        r.pipeline_wires@.len() == 0,
{
    let mut slots: Vec<LayoutSlot> = Vec::new();
    slots.push(LayoutSlot { row: 0, column: 0, pipeline_id: Some(ids.raw), output_key: Some(owned("raw")) });
    PipelineConfig {
        pipeline_enabled: true,
        pipelines: Vec::new(),
        active_pipeline_id: Some(ids.raw),
        active_pipeline_output: Some(owned("raw")),
        pipeline_layout: Some(PipelineLayout { rows: 1, columns: 1, slots }),
        pipeline_wires: Vec::new(),
    }
}

} // verus!
