//! Preview, snapshot and ordering requests: which pipeline output a preview
//! asks for, the format a preview frame is reported in, the snapshot kind
//! and quality, and the detection ordering modes.
use vstd::prelude::*;
use crate::recording::options::clamp;
use crate::streams::manifest::{binding_views, opt_view, ConfigView, PipelineConfig};
use crate::streams::outputs::{clone_opt, norm_out, normalized_output_value};
use crate::text::{
    eq_ignore_ascii_case, eq_ignore_case, lower_seq, owned, parse_u64, parse_u64_spec, push_char,
    seq_eq, to_lower, trim, trim_str,
};

verus! {

// ---------------------------------------------------------------------------
// Preview selection.

/// The query that picks a pipeline output to preview.
#[derive(Debug, Clone, PartialEq, Eq)]
pub struct PreviewSelectionQuery {
    pub pipeline: Option<u128>,
    pub output: Option<String>,
}

/// A requested preview output: trimmed, and none for the names of the raw
/// frame (`frame`, `raw`, `undistorted`, in any case).
pub open spec fn preview_out(o: Option<Seq<char>>) -> Option<Seq<char>> {
    match norm_out(o) {
        Some(v) => if eq_ignore_case(v, "frame"@) || eq_ignore_case(v, "raw"@) || eq_ignore_case(v, "undistorted"@) {
            None
        } else {
            Some(v)
        },
        None => None,
    }
}

pub fn normalize_preview_output(output: &Option<String>) -> (r: Option<String>)
    ensures
        opt_view(r) == preview_out(opt_view(*output)),
{
    match normalized_output_value(output) {
        Some(v) => {
            if eq_ignore_ascii_case(v.as_str(), "frame") || eq_ignore_ascii_case(v.as_str(), "raw")
                || eq_ignore_ascii_case(v.as_str(), "undistorted") {
                None
            } else {
                Some(v)
            }
        },
        None => None,
    }
}

/// A pipeline output to record or preview from.
#[derive(Debug, Clone, PartialEq, Eq)]
pub struct PipelineSource {
    pub pipeline_id: Option<u128>,
    pub output_key: Option<String>,
}

/// The pipeline output a preview query asks for instead of the default,
/// if it asks for one.
pub fn override_recording_source(q: &PreviewSelectionQuery) -> (r: Option<PipelineSource>)
    ensures
        (q.pipeline is None && preview_out(opt_view(q.output)) is None) <==> r is None,
        r matches Some(s) ==> s.pipeline_id == q.pipeline && opt_view(s.output_key) == preview_out(opt_view(q.output)),
{
    let output_key = normalize_preview_output(&q.output);
    if q.pipeline.is_none() && output_key.is_none() {
        return None;
    }
    Some(PipelineSource { pipeline_id: q.pipeline, output_key })
}

/// The pipeline that is shown by default: the active one, else the first bound.
pub open spec fn shown_pipeline(c: ConfigView) -> Option<u128> {
    if c.active_id is Some {
        c.active_id
    } else if c.bindings.len() > 0 {
        Some(c.bindings[0].pipeline_id)
    } else {
        None
    }
}

/// A query targets what the stream shows when it names the shown pipeline
/// (or none) and the shown output (or none).
pub open spec fn targets_active(c: ConfigView, pipeline: Option<u128>, output: Option<Seq<char>>) -> bool {
    let active = shown_pipeline(c);
    let active_output = preview_out(c.active_output);
    let req_pid = if pipeline is Some {
        pipeline
    } else {
        active
    };
    let req_out = if preview_out(output) is Some {
        preview_out(output)
    } else {
        active_output
    };
    req_pid == active && req_out == active_output
}

pub fn preview_targets_active_pipeline(cfg: &PipelineConfig, q: &PreviewSelectionQuery) -> (r: bool)
    ensures
        r == targets_active(cfg@, q.pipeline, opt_view(q.output)),
{
    let active = if cfg.active_pipeline_id.is_some() {
        cfg.active_pipeline_id
    } else if cfg.pipelines.len() > 0 {
        assert(binding_views(cfg.pipelines@)[0] == cfg.pipelines@[0]@);
        Some(cfg.pipelines[0].pipeline_id)
    } else {
        None
    };
    let active_output = normalize_preview_output(&cfg.active_pipeline_output);
    let requested = normalize_preview_output(&q.output);
    let req_pid = if q.pipeline.is_some() {
        q.pipeline
    } else {
        active
    };
    let req_out = if requested.is_some() {
        requested
    } else {
        clone_opt(&active_output)
    };
    let same_output = match (&req_out, &active_output) {
        (Some(a), Some(b)) => seq_eq(a.as_str(), b.as_str()),
        (None, None) => true,
        _ => false,
    };
    req_pid == active && same_output
}

/// Whether a preview query shows what the stream shows; a query that asks
/// for nothing in particular always does, a stream whose manifest cannot be
/// loaded never does otherwise.
pub fn query_targets_active_preview(q: &PreviewSelectionQuery, manifest: Option<&PipelineConfig>) -> (r: bool)
    ensures
        r == (if q.pipeline is None && preview_out(opt_view(q.output)) is None {
            true
        } else {
            match manifest {
                Some(c) => targets_active(c@, q.pipeline, opt_view(q.output)),
                None => false,
            }
        }),
{
    let requested = normalize_preview_output(&q.output);
    if q.pipeline.is_none() && requested.is_none() {
        return true;
    }
    match manifest {
        Some(c) => preview_targets_active_pipeline(c, q),
        None => false,
    }
}

// ---------------------------------------------------------------------------
// The format of a preview frame.

/// The format of the latest preview frame.
#[derive(Debug, Clone, PartialEq, Eq)]
pub struct StreamFormatInfo {
    pub fourcc: String,
    pub format: String,
    pub width: u32,
    pub height: u32,
}

pub open spec fn format_of(fourcc: Seq<char>) -> Seq<char> {
    if fourcc == "MJPG"@ || fourcc == "JPEG"@ {
        "mjpeg"@
    } else if fourcc == "H264"@ {
        "h264"@
    } else if fourcc == "H265"@ || fourcc == "HEVC"@ {
        "h265"@
    } else {
        "unknown"@
    }
}

pub fn fourcc_to_format(fourcc: &str) -> (r: &'static str)
    ensures
        r@ == format_of(fourcc@),
{
    if seq_eq(fourcc, "MJPG") || seq_eq(fourcc, "JPEG") {
        "mjpeg"
    } else if seq_eq(fourcc, "H264") {
        "h264"
    } else if seq_eq(fourcc, "H265") || seq_eq(fourcc, "HEVC") {
        "h265"
    } else {
        "unknown"
    }
}

/// The format of the latest frame: none for an empty frame or a zero
/// fourcc; MJPEG when the query picks a pipeline output (those are served
/// as JPEG); else the frame's own fourcc and format.
pub fn stream_format(
    frame_len: u64,
    fourcc_code: u32,
    fourcc: &str,
    width: u32,
    height: u32,
    q: &PreviewSelectionQuery,
) -> (r: Option<StreamFormatInfo>)
    ensures
        (frame_len == 0 || fourcc_code == 0) <==> r is None,
        r matches Some(info) ==> info.width == width && info.height == height && if q.pipeline is None
            && preview_out(opt_view(q.output)) is None {
            info.fourcc@ == fourcc@ && info.format@ == format_of(fourcc@)
        } else {
            info.fourcc@ == "MJPG"@ && info.format@ == "mjpeg"@
        },
{
    if frame_len == 0 || fourcc_code == 0 {
        return None;
    }
    if override_recording_source(q).is_some() {
        return Some(StreamFormatInfo { fourcc: owned("MJPG"), format: owned("mjpeg"), width, height });
    }
    Some(StreamFormatInfo { fourcc: owned(fourcc), format: owned(fourcc_to_format(fourcc)), width, height })
}

// ---------------------------------------------------------------------------
// Snapshots.

pub open spec fn snapshot_kind(kind: Option<Seq<char>>) -> Result<Seq<char>, Seq<char>> {
    match norm_out(kind) {
        None => Ok("snapshot"@),
        Some(v) => if eq_ignore_case(v, "snapshot"@) {
            Ok("snapshot"@)
        } else if eq_ignore_case(v, "calibration"@) {
            Ok("calibration"@)
        } else {
            Err("unsupported snapshot kind: "@ + v)
        },
    }
}

pub open spec fn str_opt(o: Option<&str>) -> Option<Seq<char>> {
    match o {
        Some(s) => Some(s@),
        None => None,
    }
}

/// The kind of a snapshot: `snapshot` unless `calibration` is asked for
/// (in any case); other kinds are refused.
pub fn normalize_snapshot_kind(kind: Option<&str>) -> (r: Result<&'static str, String>)
    ensures
        match r {
            Ok(k) => snapshot_kind(str_opt(kind)) == Ok::<Seq<char>, Seq<char>>(k@),
            Err(e) => snapshot_kind(str_opt(kind)) == Err::<Seq<char>, Seq<char>>(e@),
        },
{
    let v = match kind {
        None => return Ok("snapshot"),
        Some(k) => {
            let t = trim_str(k);
            if t.unicode_len() == 0 {
                return Ok("snapshot");
            }
            t
        },
    };
    if eq_ignore_ascii_case(v, "snapshot") {
        Ok("snapshot")
    } else if eq_ignore_ascii_case(v, "calibration") {
        Ok("calibration")
    } else {
        let mut message = owned("unsupported snapshot kind: ");
        message.append(v);
        Err(message)
    }
}

/// The JPEG quality of snapshots: the configured value when it reads as a
/// `u8`, else 95; kept within 1..=100.
pub fn snapshot_jpeg_quality(raw: Option<&str>) -> (r: u8)
    ensures
        r == clamp(
            match raw {
                Some(s) => match parse_u64_spec(s@) {
                    Some(v) => if v <= 255 {
                        v as int
                    } else {
                        95
                    },
                    None => 95,
                },
                None => 95,
            },
            1,
            100,
        ),
{
    let v: u64 = match raw {
        Some(s) => match parse_u64(s) {
            Some(v) => if v <= 255 {
                v
            } else {
                95
            },
            None => 95,
        },
        None => 95,
    };
    if v < 1 {
        1
    } else if v > 100 {
        100
    } else {
        v as u8
    }
}

// ---------------------------------------------------------------------------
// Detection ordering.

/// A request to change how detections are ordered.
#[derive(Debug, Clone, PartialEq, Eq)]
pub struct SetStreamOrderingRequest {
    pub mode: String,
}

/// Lower case, with `-` and blanks inside turned into `_`.
pub open spec fn mode_key(raw: Seq<char>) -> Seq<char> {
    lower_seq(trim(raw)).map_values(|c: char| if c == '-' || c == ' ' { '_' } else { c })
}

pub open spec fn known_order_mode(k: Seq<char>) -> bool {
    ||| k == "none"@
    ||| k == "largest_to_smallest"@
    ||| k == "smallest_to_largest"@
    ||| k == "top_most"@
    ||| k == "bottom_most"@
    ||| k == "left_most"@
    ||| k == "right_most"@
    ||| k == "top_left"@
    ||| k == "top_right"@
    ||| k == "bottom_left"@
    ||| k == "bottom_right"@
    ||| k == "center_most"@
    ||| k == "crosshair"@
}

pub open spec fn order_mode(raw: Seq<char>) -> Result<Seq<char>, Seq<char>> {
    if known_order_mode(mode_key(raw)) {
        Ok(mode_key(raw))
    } else {
        Err(
            "unsupported ordering mode: "@ + raw
                + " (expected one of: none, largest_to_smallest, smallest_to_largest, top_most, bottom_most, left_most, right_most, top_left, top_right, bottom_left, bottom_right, center_most, crosshair)"@,
        )
    }
}

/// Reads an ordering mode: blanks around it ignored, any case, `-` or a
/// blank for `_`; only the known modes are accepted.
pub fn normalize_detections_order_mode(raw: &str) -> (r: Result<String, String>)
    ensures
        match r {
            Ok(m) => order_mode(raw@) == Ok::<Seq<char>, Seq<char>>(m@),
            Err(e) => order_mode(raw@) == Err::<Seq<char>, Seq<char>>(e@),
        },
{
    let lowered = to_lower(trim_str(raw));
    let s = lowered.as_str();
    let n = s.unicode_len();
    let mut key = String::new();
    let mut i: usize = 0;
    while i < n
        invariant
            n == s@.len(),
            i <= n,
            key@ == s@.subrange(0, i as int).map_values(|c: char| if c == '-' || c == ' ' { '_' } else { c }),
        decreases n - i,
    {
        let c = s.get_char(i);
        let d = if c == '-' || c == ' ' {
            '_'
        } else {
            c
        };
        push_char(&mut key, d);
        assert(s@.subrange(0, i + 1) =~= s@.subrange(0, i as int).push(c));
        assert(key@ =~= s@.subrange(0, i + 1).map_values(|c: char| if c == '-' || c == ' ' { '_' } else { c }));
        i = i + 1;
    }
    assert(s@.subrange(0, n as int) =~= s@);
    let k = key.as_str();
    let known = seq_eq(k, "none") || seq_eq(k, "largest_to_smallest") || seq_eq(k, "smallest_to_largest")
        || seq_eq(k, "top_most") || seq_eq(k, "bottom_most") || seq_eq(k, "left_most") || seq_eq(k, "right_most")
        || seq_eq(k, "top_left") || seq_eq(k, "top_right") || seq_eq(k, "bottom_left") || seq_eq(k, "bottom_right")
        || seq_eq(k, "center_most") || seq_eq(k, "crosshair");
    if known {
        Ok(key)
    } else {
        let mut message = owned("unsupported ordering mode: ");
        message.append(raw);
        message.append(
            " (expected one of: none, largest_to_smallest, smallest_to_largest, top_most, bottom_most, left_most, right_most, top_left, top_right, bottom_left, bottom_right, center_most, crosshair)",
        );
        Err(message)
    }
}

/// Holds only lower-case ASCII letters and `_`.
pub open spec fn plain_key(k: Seq<char>) -> bool {
    k.len() > 0 && forall|i: int| 0 <= i < k.len() ==> ('a' <= #[trigger] k[i] <= 'z' || k[i] == '_')
}

/// A plain key reads as itself.
proof fn lemma_plain_key_is_own_key(k: Seq<char>)
    requires
        plain_key(k),
    ensures
        mode_key(k) == k,
{
    assert('a' <= k[0] <= 'z' || k[0] == '_');
    assert('a' <= k[k.len() - 1] <= 'z' || k[k.len() - 1] == '_');
    crate::text::lemma_trim_of_trimmed(k);
    assert(lower_seq(k) =~= k);
    assert(mode_key(k) =~= k);
}

proof fn lemma_known_modes_are_plain(k: Seq<char>)
    requires
        known_order_mode(k),
    ensures
        plain_key(k),
{
    reveal_strlit("none");
    reveal_strlit("largest_to_smallest");
    reveal_strlit("smallest_to_largest");
    reveal_strlit("top_most");
    reveal_strlit("bottom_most");
    reveal_strlit("left_most");
    reveal_strlit("right_most");
    reveal_strlit("top_left");
    reveal_strlit("top_right");
    reveal_strlit("bottom_left");
    reveal_strlit("bottom_right");
    reveal_strlit("center_most");
    reveal_strlit("crosshair");
}

/// An ordering mode that was accepted reads back as itself: normalizing
/// the mode a normalization gave changes nothing.
pub proof fn law_order_mode_is_stable(raw: Seq<char>)
    ensures
        order_mode(raw) matches Ok(m) ==> order_mode(m) == Ok::<Seq<char>, Seq<char>>(m),
{
    if known_order_mode(mode_key(raw)) {
        let m = mode_key(raw);
        lemma_known_modes_are_plain(m);
        lemma_plain_key_is_own_key(m);
    }
}

} // verus!
