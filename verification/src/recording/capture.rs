//! Shadow-buffer captures (the last `window_ms` of a stream saved to a
//! file), the names tried for a new media file, and the frame timestamp
//! side file that recordings write.
use vstd::prelude::*;
use crate::recording::media::{fallback_name, suffixed_name, append_suffix, fallback_media_name};
use crate::recording::options::{
    capture_container, codec_override, parse_capture_container,
    parse_codec_override, RecordingCodec, RecordingContainer, RecordingOptionError,
};
use crate::text::{lines, lines_of, owned, parse_u64, parse_u64_spec, trim, trim_str, views};

verus! {

/// The request that saves the recent past of a stream.
#[derive(Debug, Clone, PartialEq, Eq)]
pub struct CaptureShadowRecordingRequest {
    pub window_ms: u64,
    pub name: Option<String>,
    pub container: Option<String>,
    pub codec: Option<String>,
}

/// Why a shadow capture request is refused before the engine is asked.
#[derive(Debug, Clone, PartialEq, Eq)]
pub enum ShadowCaptureRefusal {
    /// The shadow recorder feature is off.
    FeatureDisabled,
    /// `window_ms` is zero.
    EmptyWindow,
    /// The container or codec is not one the recorder knows.
    BadOption(RecordingOptionError),
}

/// The container of the capture, and the codec asked for explicitly.
#[derive(Debug, Clone, Copy, PartialEq, Eq, Structural)]
pub struct ShadowCapturePlan {
    pub container: RecordingContainer,
    pub codec_override: Option<RecordingCodec>,
}

pub open spec fn str_opt(o: Option<String>) -> Option<Seq<char>> {
    match o {
        Some(s) => Some(s@),
        None => None,
    }
}

/// What a shadow capture request asks for, or why it is refused: the
/// feature gate first, then the window, the container, the codec.
pub open spec fn shadow_plan(feature_enabled: bool, req: CaptureShadowRecordingRequest) -> Result<ShadowCapturePlan, Option<Seq<char>>> {
    if !feature_enabled {
        Err(None)
    } else if req.window_ms == 0 {
        Err(Some("window_ms must be greater than zero"@))
    } else {
        match capture_container(str_opt(req.container)) {
            Err(e) => Err(Some(e)),
            Ok(container) => match codec_override(str_opt(req.codec)) {
                Err(e) => Err(Some(e)),
                Ok(codec) => Ok(ShadowCapturePlan { container, codec_override: codec }),
            },
        }
    }
}

pub open spec fn refusal_view(r: Result<ShadowCapturePlan, ShadowCaptureRefusal>) -> Result<ShadowCapturePlan, Option<Seq<char>>> {
    match r {
        Ok(p) => Ok(p),
        Err(ShadowCaptureRefusal::FeatureDisabled) => Err(None),
        Err(ShadowCaptureRefusal::EmptyWindow) => Err(Some("window_ms must be greater than zero"@)),
        Err(ShadowCaptureRefusal::BadOption(e)) => Err(Some(e.message@)),
    }
}

pub fn plan_shadow_capture(feature_enabled: bool, req: &CaptureShadowRecordingRequest) -> (r: Result<ShadowCapturePlan, ShadowCaptureRefusal>)
    ensures
        refusal_view(r) == shadow_plan(feature_enabled, *req),
{
    if !feature_enabled {
        return Err(ShadowCaptureRefusal::FeatureDisabled);
    }
    if req.window_ms == 0 {
        return Err(ShadowCaptureRefusal::EmptyWindow);
    }
    let container_raw = match &req.container {
        Some(c) => Some(c.as_str()),
        None => None,
    };
    let container = match parse_capture_container(container_raw) {
        Ok(c) => c,
        Err(e) => return Err(ShadowCaptureRefusal::BadOption(e)),
    };
    let codec_raw = match &req.codec {
        Some(c) => Some(c.as_str()),
        None => None,
    };
    let codec = match parse_codec_override(codec_raw) {
        Ok(c) => c,
        Err(e) => return Err(ShadowCaptureRefusal::BadOption(e)),
    };
    Ok(ShadowCapturePlan { container, codec_override: codec })
}

/// The codec that names a capture file: for a raw capture the codec asked
/// for, else the stream's own (`stream_codec`); an MP4 capture is H.265.
pub fn shadow_capture_codec(plan: ShadowCapturePlan, stream_codec: RecordingCodec) -> (r: RecordingCodec)
    ensures
        r == (match plan.container {
            RecordingContainer::Raw => match plan.codec_override {
                Some(c) => c,
                None => stream_codec,
            },
            RecordingContainer::Mp4 => RecordingCodec::H265,
        }),
{
    match plan.container {
        RecordingContainer::Raw => match plan.codec_override {
            Some(c) => c,
            None => stream_codec,
        },
        RecordingContainer::Mp4 => RecordingCodec::H265,
    }
}

/// A raw capture has to learn the stream's codec from the engine unless the
/// request named one.
pub fn shadow_capture_needs_stream_codec(plan: ShadowCapturePlan) -> (r: bool)
    ensures
        r == (plan.container == RecordingContainer::Raw && plan.codec_override is None),
{
    match plan.container {
        RecordingContainer::Raw => plan.codec_override.is_none(),
        RecordingContainer::Mp4 => false,
    }
}

// ---------------------------------------------------------------------------
// Names tried for a new media file.

/// The names a recording tries in turn when its file name is taken: the
/// name with the first eight characters of `suffix` at attempts 1 to 6,
/// and finally the whole suffix in front of the name.
pub open spec fn recording_candidates(filename: Seq<char>, suffix: Seq<char>) -> Seq<Seq<char>> {
    let short = suffix.subrange(0, 8);
    seq![
        filename,
        suffixed_name(filename, short, 1),
        suffixed_name(filename, short, 2),
        suffixed_name(filename, short, 3),
        suffixed_name(filename, short, 4),
        suffixed_name(filename, short, 5),
        suffixed_name(filename, short, 6),
        fallback_name(suffix, filename),
    ]
}

pub fn recording_name_candidates(filename: &str, suffix: &str) -> (r: Vec<String>)
    requires
        suffix@.len() >= 8,
    ensures
        views(r@) == recording_candidates(filename@, suffix@),
{
    let short = suffix.substring_char(0, 8);
    let mut out: Vec<String> = Vec::new();
    out.push(owned(filename));
    let mut attempt: usize = 1;
    while attempt <= 6
        invariant
            1 <= attempt <= 7,
            short@ == suffix@.subrange(0, 8),
            out@.len() == attempt,
            views(out@)[0] == filename@,
            forall|k: int| 1 <= k < attempt ==> (#[trigger] views(out@)[k]) == suffixed_name(filename@, short@, k as nat),
        decreases 7 - attempt,
    {
        let ghost before = views(out@);
        let next = append_suffix(filename, short, attempt);
        out.push(next);
        assert(views(out@) =~= before.push(next@));
        attempt = attempt + 1;
    }
    let ghost before = views(out@);
    let last = fallback_media_name(suffix, filename);
    out.push(last);
    assert(views(out@) =~= before.push(last@));
    assert(views(out@) =~= recording_candidates(filename@, suffix@));
    out
}

/// The first candidate that is free, or the last one when none is.
pub open spec fn first_free(taken: Seq<bool>) -> int
    decreases taken.len(),
{
    if taken.len() <= 1 {
        0
    } else if !taken[0] {
        0
    } else {
        1 + first_free(taken.drop_first())
    }
}

/// Picks a name among candidates, given which are taken (one flag each, the
/// last one never consulted): the first free one, else the last.
pub fn pick_media_name(taken: &Vec<bool>) -> (r: usize)
    requires
        taken@.len() > 0,
    ensures
        r == first_free(taken@),
        r < taken@.len(),
        forall|k: int| 0 <= k < r ==> taken@[k],
        r + 1 < taken@.len() ==> !taken@[r as int],
{
    let mut i: usize = 0;
    assert(taken@.subrange(0, taken@.len() as int) =~= taken@);
    while i < taken.len() - 1
        invariant
            i < taken@.len(),
            first_free(taken@) == i + first_free(taken@.subrange(i as int, taken@.len() as int)),
            forall|k: int| 0 <= k < i ==> taken@[k],
        decreases taken@.len() - i,
    {
        let ghost rest = taken@.subrange(i as int, taken@.len() as int);
        assert(rest.drop_first() =~= taken@.subrange(i + 1, taken@.len() as int));
        if !taken[i] {
            return i;
        }
        i = i + 1;
    }
    proof {
        let rest = taken@.subrange(i as int, taken@.len() as int);
        assert(rest.len() == 1);
    }
    i
}

// ---------------------------------------------------------------------------
// Frame timestamps.

/// Frame timestamp text read so far, cut into the complete lines and the
/// partial last line that is kept for the next read.
pub open spec fn split_complete(buffer: Seq<char>) -> (Seq<Seq<char>>, Seq<char>) {
    let ls = lines(buffer);
    if buffer.len() > 0 && buffer.last() != '\n' && ls.len() > 0 {
        (ls.drop_last(), ls.last())
    } else {
        (ls, Seq::empty())
    }
}

/// The timestamps of lines that read as numbers, in order; blank lines and
/// other lines are skipped.
pub open spec fn timestamp_values(ls: Seq<Seq<char>>) -> Seq<u64>
    decreases ls.len(),
{
    if ls.len() == 0 {
        Seq::empty()
    } else {
        timestamp_values(ls.drop_last()) + match parse_u64_spec(trim(ls.last())) {
            Some(v) => if trim(ls.last()).len() > 0 {
                seq![v]
            } else {
                Seq::empty()
            },
            None => Seq::empty(),
        }
    }
}

/// What one read of the frame timestamp file yields.
#[derive(Debug, Clone, PartialEq, Eq)]
pub struct FrameTimestampChunk {
    pub carry: String,
    pub values: Vec<u64>,
}

/// Cuts the text read so far (the carried partial line and the new chunk)
/// into timestamps and the partial line to carry.
pub fn parse_frame_timestamp_buffer(buffer: &str) -> (r: FrameTimestampChunk)
    ensures
        r.carry@ == split_complete(buffer@).1,
        r.values@ == timestamp_values(split_complete(buffer@).0),
{
    let ls = lines_of(buffer);
    let ghost lv = views(ls@);
    let n = buffer.unicode_len();
    let partial = n > 0 && buffer.get_char(n - 1) != '\n' && ls.len() > 0;
    let complete: usize = if partial {
        ls.len() - 1
    } else {
        ls.len()
    };
    let carry = if partial {
        ls[ls.len() - 1].clone()
    } else {
        String::new()
    };
    let ghost whole = split_complete(buffer@).0;
    assert(whole =~= lv.subrange(0, complete as int));
    let mut values: Vec<u64> = Vec::new();
    let mut i: usize = 0;
    while i < complete
        invariant
            lv == views(ls@),
            complete <= ls@.len(),
            i <= complete,
            values@ == timestamp_values(lv.subrange(0, i as int)),
        decreases complete - i,
    {
        assert(lv.subrange(0, i + 1).drop_last() =~= lv.subrange(0, i as int));
        assert(lv.subrange(0, i + 1).last() == ls@[i as int]@);
        let t = trim_str(ls[i].as_str());
        if t.unicode_len() > 0 {
            match parse_u64(t) {
                Some(v) => {
                    values.push(v);
                },
                None => {},
            }
        }
        assert(values@ =~= timestamp_values(lv.subrange(0, i + 1)));
        i = i + 1;
    }
    assert(carry@ == split_complete(buffer@).1) by {
        if partial {
            assert(lv.last() == ls@[ls@.len() - 1]@);
        }
    }
    FrameTimestampChunk { carry, values }
}

/// How many timestamps a side file holds, with the first and the last.
#[derive(Debug, Clone, Copy, PartialEq, Eq, Structural)]
pub struct TimestampSpan {
    pub count: u64,
    pub first: u64,
    pub last: u64,
}

/// The span of a whole timestamp file, from which its frame rate is
/// derived; none when a non-blank line does not read as a number, or when
/// fewer than two timestamps span no time.
pub open spec fn all_lines_read(ls: Seq<Seq<char>>) -> bool {
    forall|i: int| 0 <= i < ls.len() && trim(#[trigger] ls[i]).len() > 0 ==> parse_u64_spec(trim(ls[i])) is Some
}

pub fn frame_timestamp_span(text: &str) -> (r: Option<TimestampSpan>)
    ensures
        match r {
            Some(s) => {
                let vs = timestamp_values(lines(text@));
                &&& all_lines_read(lines(text@))
                &&& s.count == vs.len()
                &&& s.count > 1
                &&& s.first == vs[0]
                &&& s.last == vs.last()
                &&& s.first < s.last
            },
            None => !all_lines_read(lines(text@)) || timestamp_values(lines(text@)).len() <= 1
                || timestamp_values(lines(text@))[0] >= timestamp_values(lines(text@)).last(),
        },
{
    let ls = lines_of(text);
    let ghost lv = views(ls@);
    let mut count: u64 = 0;
    let mut first: u64 = 0;
    let mut last: u64 = 0;
    let mut i: usize = 0;
    while i < ls.len()
        invariant
            lv == views(ls@),
            lv == lines(text@),
            i <= ls@.len(),
            all_lines_read(lv.subrange(0, i as int)),
            count == timestamp_values(lv.subrange(0, i as int)).len(),
            count <= i,
            count > 0 ==> first == timestamp_values(lv.subrange(0, i as int))[0] && last == timestamp_values(
                lv.subrange(0, i as int),
            ).last(),
        decreases ls@.len() - i,
    {
        let ghost prev = lv.subrange(0, i as int);
        let ghost next = lv.subrange(0, i + 1);
        assert(next.drop_last() =~= prev);
        assert(next.last() == ls@[i as int]@);
        let t = trim_str(ls[i].as_str());
        if t.unicode_len() > 0 {
            match parse_u64(t) {
                Some(v) => {
                    if count == 0 {
                        first = v;
                    }
                    last = v;
                    count = count + 1;
                    assert(timestamp_values(next) =~= timestamp_values(prev).push(v));
                },
                None => {
                    assert(!all_lines_read(lv)) by {
                        assert(lv[i as int] == next.last());
                    }
                    return None;
                },
            }
        } else {
            assert(timestamp_values(next) =~= timestamp_values(prev));
        }
        assert forall|k: int| 0 <= k < next.len() && trim(#[trigger] next[k]).len() > 0 implies parse_u64_spec(trim(next[k])) is Some by {
            if k < prev.len() {
                assert(next[k] == prev[k]);
            }
        }
        i = i + 1;
    }
    assert(lv.subrange(0, lv.len() as int) =~= lv);
    if count <= 1 || last <= first {
        return None;
    }
    Some(TimestampSpan { count, first, last })
}


/// The span a replay reads from a timestamp file: lines that do not read
/// as numbers are skipped; none when no line does.
pub fn replay_timestamp_span(text: &str) -> (r: Option<TimestampSpan>)
    ensures
        match r {
            Some(s) => {
                let vs = timestamp_values(lines(text@));
                &&& vs.len() > 0
                &&& s.count == vs.len()
                &&& s.first == vs[0]
                &&& s.last == vs.last()
            },
            None => timestamp_values(lines(text@)).len() == 0,
        },
{
    let ls = lines_of(text);
    let ghost lv = views(ls@);
    let mut count: u64 = 0;
    let mut first: u64 = 0;
    let mut last: u64 = 0;
    let mut i: usize = 0;
    while i < ls.len()
        invariant
            lv == views(ls@),
            lv == lines(text@),
            i <= ls@.len(),
            count == timestamp_values(lv.subrange(0, i as int)).len(),
            count <= i,
            count > 0 ==> first == timestamp_values(lv.subrange(0, i as int))[0] && last == timestamp_values(
                lv.subrange(0, i as int),
            ).last(),
        decreases ls@.len() - i,
    {
        let ghost prev = lv.subrange(0, i as int);
        let ghost next = lv.subrange(0, i + 1);
        assert(next.drop_last() =~= prev);
        assert(next.last() == ls@[i as int]@);
        let t = trim_str(ls[i].as_str());
        let parsed = if t.unicode_len() > 0 {
            parse_u64(t)
        } else {
            None
        };
        match parsed {
            Some(v) => {
                if count == 0 {
                    first = v;
                }
                last = v;
                count = count + 1;
                assert(timestamp_values(next) =~= timestamp_values(prev).push(v));
            },
            None => {
                assert(timestamp_values(next) =~= timestamp_values(prev));
            },
        }
        i = i + 1;
    }
    assert(lv.subrange(0, lv.len() as int) =~= lv);
    if count == 0 {
        return None;
    }
    Some(TimestampSpan { count, first, last })
}

// ---------------------------------------------------------------------------
// IMU samples for a frame.

/// The latest sample (by position) taken at or before `frame_ms`, if any.
pub open spec fn sample_at_or_before(times: Seq<i64>, frame_ms: i64) -> Option<int>
    decreases times.len(),
{
    if times.len() == 0 {
        None
    } else if times.last() <= frame_ms {
        Some(times.len() - 1)
    } else {
        sample_at_or_before(times.drop_last(), frame_ms)
    }
}

/// Picks the IMU sample for a frame from the history's timestamps: the last
/// one taken at or before the frame.
pub fn select_imu_sample_at_or_before(times: &Vec<i64>, frame_ms: i64) -> (r: Option<usize>)
    ensures
        match r {
            Some(i) => sample_at_or_before(times@, frame_ms) == Some(i as int),
            None => sample_at_or_before(times@, frame_ms) is None,
        },
{
    let mut i: usize = times.len();
    assert(times@.subrange(0, times@.len() as int) =~= times@);
    while i > 0
        invariant
            i <= times@.len(),
            sample_at_or_before(times@, frame_ms) == sample_at_or_before(times@.subrange(0, i as int), frame_ms),
        decreases i,
    {
        let ghost pre = times@.subrange(0, i as int);
        assert(pre.drop_last() =~= times@.subrange(0, i - 1));
        if times[i - 1] <= frame_ms {
            return Some(i - 1);
        }
        i = i - 1;
    }
    None
}

} // verus!
