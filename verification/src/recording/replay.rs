//! Replay bundles: a video recording together with a gzipped NDJSON stream
//! of pipeline samples, sensor snapshots, stream metrics and CPU usage.
//! This module reads the start request, names the two files and describes
//! them in the answer.
use vstd::prelude::*;
use crate::recording::media::{content_type_for_extension, content_type_of, recording_ext, recording_extension};
use crate::recording::options::{
    clamp, err_view, parse_recording_options, recording_options, RecordingCodec,
    RecordingContainer, RecordingOptionError,
};
use crate::storage::mounts::trimmed_nonempty;
use crate::streams::validation::{uuid_string, uuid_text};
use crate::text::{decimal, owned, push_decimal, push_signed_decimal, signed_decimal, trim_str, views};

verus! {

/// The request that starts a replay bundle.
#[derive(Debug, Clone, PartialEq, Eq)]
pub struct StartReplayBundleRequest {
    pub name: Option<String>,
    pub duration_ms: Option<u64>,
    pub codec: Option<String>,
    pub container: Option<String>,
    pub pipeline_ports: Vec<String>,
    pub pipeline_interval_ms: Option<u64>,
    pub include_sensors: Option<bool>,
    pub sensors_min_interval_ms: Option<u64>,
    pub include_i2c_inventory: Option<bool>,
    pub include_stream_metrics: Option<bool>,
    pub stream_metrics_interval_ms: Option<u64>,
    pub include_cpu: Option<bool>,
    pub cpu_interval_ms: Option<u64>,
}

pub open spec fn str_opt(o: Option<String>) -> Option<Seq<char>> {
    match o {
        Some(s) => Some(s@),
        None => None,
    }
}

/// The video of a replay bundle: H.265 in MP4 unless asked otherwise; a
/// container named after a codec means a raw stream of that codec.
pub open spec fn replay_video_options(codec: Option<Seq<char>>, container: Option<Seq<char>>) -> Result<(RecordingContainer, RecordingCodec), Seq<char>> {
    recording_options(
        codec,
        Some(
            match container {
                Some(c) => c,
                None => "mp4"@,
            },
        ),
    )
}

pub fn parse_video_options(req: &StartReplayBundleRequest) -> (r: Result<(RecordingContainer, RecordingCodec), RecordingOptionError>)
    ensures
        err_view(r) == replay_video_options(str_opt(req.codec), str_opt(req.container)),
{
    let codec = match &req.codec {
        Some(c) => Some(c.as_str()),
        None => None,
    };
    let container = match &req.container {
        Some(c) => c.as_str(),
        None => "mp4",
    };
    parse_recording_options(codec, Some(container))
}

/// `value.unwrap_or(default).clamp(lo, hi)`.
pub open spec fn clamp_or(value: Option<u64>, default: u64, lo: u64, hi: u64) -> int {
    clamp(
        match value {
            Some(v) => v as int,
            None => default as int,
        },
        lo as int,
        hi as int,
    )
}

pub fn clamp_ms(raw: Option<u64>, default_ms: u64, min_ms: u64, max_ms: u64) -> (r: u64)
    requires
        min_ms <= max_ms,
    ensures
        r == clamp_or(raw, default_ms, min_ms, max_ms),
{
    crate::recording::options::clamp_u64(
        match raw {
            Some(v) => v,
            None => default_ms,
        },
        min_ms,
        max_ms,
    )
}

/// What a replay bundle records, and how often.
#[derive(Debug, Clone, PartialEq, Eq)]
pub struct ReplaySettings {
    pub pipeline_ports: Vec<String>,
    pub pipeline_interval_ms: u64,
    pub include_sensors: bool,
    pub sensors_min_interval_ms: u64,
    pub include_i2c_inventory: bool,
    pub include_stream_metrics: bool,
    pub stream_metrics_interval_ms: u64,
    pub include_cpu: bool,
    pub cpu_interval_ms: u64,
    /// The time after which recording stops on its own, if any.
    pub duration_ms: Option<u64>,
}

fn trimmed_ports(ports: &Vec<String>) -> (r: Vec<String>)
    ensures
        views(r@) == trimmed_nonempty(views(ports@)),
{
    let ghost pv = views(ports@);
    let mut out: Vec<String> = Vec::new();
    let mut i: usize = 0;
    while i < ports.len()
        invariant
            pv == views(ports@),
            i <= ports@.len(),
            views(out@) == trimmed_nonempty(pv.subrange(0, i as int)),
        decreases ports@.len() - i,
    {
        assert(pv.subrange(0, i + 1).drop_last() =~= pv.subrange(0, i as int));
        assert(pv.subrange(0, i + 1).last() == ports@[i as int]@);
        let t = trim_str(ports[i].as_str());
        if t.unicode_len() > 0 {
            out.push(owned(t));
            assert(views(out@) =~= trimmed_nonempty(pv.subrange(0, i as int)).push(t@));
        }
        i = i + 1;
    }
    assert(pv.subrange(0, pv.len() as int) =~= pv);
    out
}

pub open spec fn flag(v: Option<bool>) -> bool {
    v matches Some(b) && b
}

/// Reads what a replay bundle records: blank port names are dropped, every
/// source is off unless asked for, intervals default and are kept in range
/// (pipelines 33 ms within 10..=5000, sensors 50 ms within 10..=10000,
/// metrics 250 ms within 50..=10000, CPU 500 ms within 100..=10000), and a
/// zero duration means no limit.
pub fn replay_settings(req: &StartReplayBundleRequest) -> (r: ReplaySettings)
    ensures
        views(r.pipeline_ports@) == trimmed_nonempty(views(req.pipeline_ports@)),
        r.pipeline_interval_ms == clamp_or(req.pipeline_interval_ms, 33, 10, 5000),
        r.include_sensors == flag(req.include_sensors),
        r.sensors_min_interval_ms == clamp_or(req.sensors_min_interval_ms, 50, 10, 10000),
        r.include_i2c_inventory == flag(req.include_i2c_inventory),
        r.include_stream_metrics == flag(req.include_stream_metrics),
        r.stream_metrics_interval_ms == clamp_or(req.stream_metrics_interval_ms, 250, 50, 10000),
        r.include_cpu == flag(req.include_cpu),
        r.cpu_interval_ms == clamp_or(req.cpu_interval_ms, 500, 100, 10000),
        r.duration_ms == (match req.duration_ms {
            Some(ms) => if ms > 0 {
                Some(ms)
            } else {
                None
            },
            None => None,
        }),
{
    ReplaySettings {
        pipeline_ports: trimmed_ports(&req.pipeline_ports),
        pipeline_interval_ms: clamp_ms(req.pipeline_interval_ms, 33, 10, 5000),
        include_sensors: match req.include_sensors { Some(b) => b, None => false },
        sensors_min_interval_ms: clamp_ms(req.sensors_min_interval_ms, 50, 10, 10000),
        include_i2c_inventory: match req.include_i2c_inventory { Some(b) => b, None => false },
        include_stream_metrics: match req.include_stream_metrics { Some(b) => b, None => false },
        stream_metrics_interval_ms: clamp_ms(req.stream_metrics_interval_ms, 250, 50, 10000),
        include_cpu: match req.include_cpu { Some(b) => b, None => false },
        cpu_interval_ms: clamp_ms(req.cpu_interval_ms, 500, 100, 10000),
        duration_ms: match req.duration_ms {
            Some(ms) => if ms > 0 {
                Some(ms)
            } else {
                None
            },
            None => None,
        },
    }
}

/// The default base name of a media file: `prefix_ID_TIMESTAMP`.
pub open spec fn default_base(prefix: Seq<char>, id: u128, ts_ms: i64) -> Seq<char> {
    prefix + "_"@ + uuid_text(id) + "_"@ + signed_decimal(ts_ms as int)
}

pub fn default_media_base(prefix: &str, id: u128, ts_ms: i64) -> (r: String)
    ensures
        r@ == default_base(prefix@, id, ts_ms),
{
    let mut out = owned(prefix);
    out.append("_");
    out.append(uuid_string(id).as_str());
    out.append("_");
    push_signed_decimal(&mut out, ts_ms);
    out
}

/// The base name of a new media file: the sanitized requested name, or the
/// default one; none when the requested name sanitizes to nothing.
pub fn requested_media_base(name: Option<&str>, prefix: &str, id: u128, ts_ms: i64) -> (r: Option<String>)
    ensures
        match name {
            Some(n) => match r {
                Some(b) => crate::storage::paths::sanitized(n@) == Some(b@),
                None => crate::storage::paths::sanitized(n@) is None,
            },
            None => r matches Some(b) && b@ == default_base(prefix@, id, ts_ms),
        },
{
    match name {
        Some(n) => crate::storage::paths::sanitize_name(n),
        None => Some(default_media_base(prefix, id, ts_ms)),
    }
}

/// The extension of the data file of a bundle.
pub open spec fn replay_data_ext() -> Seq<char> {
    "replay.jsonl.gz"@
}

/// The content type of a bundle's data file.
pub fn content_type_for_data() -> (r: String)
    ensures
        r@ == "application/x-ndjson+gzip"@,
{
    owned("application/x-ndjson+gzip")
}

/// The name tried at `attempt` when a bundle file's name is taken:
/// `stem-SUFFIX-N.ext`, split at the last `.`.
pub open spec fn replay_candidate(filename: Seq<char>, suffix: Seq<char>, attempt: nat) -> Seq<char> {
    match crate::text::last_index_of(filename, '.') {
        Some(i) => {
            let stem = filename.subrange(0, i);
            let ext = filename.subrange(i + 1, filename.len() as int);
            if ext.len() == 0 {
                stem + "-"@ + suffix + "-"@ + decimal(attempt)
            } else {
                stem + "-"@ + suffix + "-"@ + decimal(attempt) + "."@ + ext
            }
        },
        None => filename + "-"@ + suffix + "-"@ + decimal(attempt),
    }
}

pub fn replay_candidate_name(filename: &str, suffix: &str, attempt: u32) -> (r: String)
    ensures
        r@ == replay_candidate(filename@, suffix@, attempt as nat),
{
    let n = filename.unicode_len();
    match crate::text::rfind_char(filename, '.') {
        Some(i) => {
            let mut out = crate::text::substring(filename, 0, i);
            out.append("-");
            out.append(suffix);
            out.append("-");
            push_decimal(&mut out, attempt as u64);
            if i + 1 < n {
                out.append(".");
                let ext = crate::text::substring(filename, i + 1, n);
                out.append(ext.as_str());
            }
            out
        },
        None => {
            let mut out = owned(filename);
            out.append("-");
            out.append(suffix);
            out.append("-");
            push_decimal(&mut out, attempt as u64);
            out
        },
    }
}

/// A media file as the media API lists it. Fields of the media listing that
/// a new recording does not know yet (dimensions, frame rate, labels, model
/// data, IMU side file) are absent for the files described here.
#[derive(Debug, Clone, PartialEq, Eq)]
pub struct MediaItem {
    pub name: String,
    pub size_bytes: u64,
    pub content_type: String,
    pub tags: Vec<String>,
    pub stream_id: Option<u128>,
    pub kind: Option<String>,
    pub captured_at_ms: Option<i64>,
    pub video_codec: Option<String>,
}

/// The two files of a replay bundle.
#[derive(Debug, Clone, PartialEq, Eq)]
pub struct ReplayBundleResponse {
    pub video: MediaItem,
    pub data: MediaItem,
}

pub open spec fn codec_name(c: RecordingCodec) -> Seq<char> {
    match c {
        RecordingCodec::H264 => "h264"@,
        RecordingCodec::H265 => "h265"@,
    }
}

pub fn codec_label(c: RecordingCodec) -> (r: &'static str)
    ensures
        r@ == codec_name(c),
{
    match c {
        RecordingCodec::H264 => "h264",
        RecordingCodec::H265 => "h265",
    }
}

pub open spec fn replay_item_ok(
    item: MediaItem,
    name: Seq<char>,
    content_type: Seq<char>,
    kind: Seq<char>,
    stream_id: u128,
    ts_ms: i64,
    video_codec: Option<Seq<char>>,
) -> bool {
    &&& item.name@ == name
    &&& item.size_bytes == 0
    &&& item.content_type@ == content_type
    &&& views(item.tags@) == seq!["replay-bundle"@]
    &&& item.stream_id == Some(stream_id)
    &&& str_opt(item.kind) == Some(kind)
    &&& item.captured_at_ms == Some(ts_ms)
    &&& str_opt(item.video_codec) == video_codec
}

/// Describes the two files of a bundle that has just started: both empty so
/// far, tagged `replay-bundle`, the video with its codec.
pub fn replay_bundle_response(
    video_name: &str,
    data_name: &str,
    container: RecordingContainer,
    codec: RecordingCodec,
    stream_id: u128,
    ts_ms: i64,
) -> (r: ReplayBundleResponse)
    ensures
        replay_item_ok(
            r.video,
            video_name@,
            content_type_of(recording_ext(container, codec)),
            "replay_video"@,
            stream_id,
            ts_ms,
            Some(codec_name(codec)),
        ),
        replay_item_ok(r.data, data_name@, "application/x-ndjson+gzip"@, "replay_data"@, stream_id, ts_ms, None),
{
    let mut video_tags: Vec<String> = Vec::new();
    video_tags.push(owned("replay-bundle"));
    let mut data_tags: Vec<String> = Vec::new();
    data_tags.push(owned("replay-bundle"));
    assert(views(video_tags@) =~= seq!["replay-bundle"@]);
    assert(views(data_tags@) =~= seq!["replay-bundle"@]);
    let ext = recording_extension(container, codec);
    let video = MediaItem {
        name: owned(video_name),
        size_bytes: 0,
        content_type: content_type_for_extension(ext),
        tags: video_tags,
        stream_id: Some(stream_id),
        kind: Some(owned("replay_video")),
        captured_at_ms: Some(ts_ms),
        video_codec: Some(owned(codec_label(codec))),
    };
    let data = MediaItem {
        name: owned(data_name),
        size_bytes: 0,
        content_type: content_type_for_data(),
        tags: data_tags,
        stream_id: Some(stream_id),
        kind: Some(owned("replay_data")),
        captured_at_ms: Some(ts_ms),
        video_codec: None,
    };
    ReplayBundleResponse { video, data }
}

} // verus!
