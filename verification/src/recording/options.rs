//! Parsing of recording requests: codec and container names, the IMU
//! side-file interval, encoder settings and the stop grace period.
use vstd::prelude::*;
use crate::text::{
    contains, contains_str, lower_seq, owned, parse_u64, parse_u64_spec, seq_eq, to_lower, trim,
    trim_str,
};

verus! {

/// The video codec of a recording.
#[derive(Debug, Clone, Copy, PartialEq, Eq, Structural)]
pub enum RecordingCodec {
    H264,
    H265,
}

/// How a recording is stored: a raw Annex-B stream or an MP4 file.
#[derive(Debug, Clone, Copy, PartialEq, Eq, Structural)]
pub enum RecordingContainer {
    Raw,
    Mp4,
}

pub const IMU_SIDE_CAR_DEFAULT_INTERVAL_MS: u64 = 20;
pub const IMU_SIDE_CAR_MIN_INTERVAL_MS: u64 = 5;
pub const IMU_SIDE_CAR_MAX_INTERVAL_MS: u64 = 2000;
pub const RECORDING_STOP_GRACE_DEFAULT_MS: u64 = 0;
pub const RECORDING_STOP_GRACE_MIN_MS: u64 = 0;
pub const RECORDING_STOP_GRACE_MAX_MS: u64 = 2000;

/// `value.clamp(lo, hi)`.
pub open spec fn clamp(value: int, lo: int, hi: int) -> int {
    if value < lo {
        lo
    } else if value > hi {
        hi
    } else {
        value
    }
}

pub fn clamp_u64(value: u64, lo: u64, hi: u64) -> (r: u64)
    requires
        lo <= hi,
    ensures
        r == clamp(value as int, lo as int, hi as int),
        lo <= r <= hi,
{
    if value < lo {
        lo
    } else if value > hi {
        hi
    } else {
        value
    }
}

/// The IMU side-file sample interval: 20 ms unless given, kept within 5..=2000 ms.
pub fn clamp_imu_interval_ms(value: Option<u64>) -> (r: u64)
    ensures
        r == clamp(
            match value {
                Some(v) => v as int,
                None => IMU_SIDE_CAR_DEFAULT_INTERVAL_MS as int,
            },
            IMU_SIDE_CAR_MIN_INTERVAL_MS as int,
            IMU_SIDE_CAR_MAX_INTERVAL_MS as int,
        ),
        IMU_SIDE_CAR_MIN_INTERVAL_MS <= r <= IMU_SIDE_CAR_MAX_INTERVAL_MS,
{
    let v = match value {
        Some(v) => v,
        None => IMU_SIDE_CAR_DEFAULT_INTERVAL_MS,
    };
    clamp_u64(v, IMU_SIDE_CAR_MIN_INTERVAL_MS, IMU_SIDE_CAR_MAX_INTERVAL_MS)
}

/// The grace period before the IMU side file is finalised, from the
/// optional `HELIOS_RECORDING_STOP_GRACE_MS` setting: its trimmed value as
/// a number, 0 when absent or not a number, kept within 0..=2000 ms.
pub open spec fn stop_grace(raw: Option<Seq<char>>) -> int {
    let v = match raw {
        Some(s) => match parse_u64_spec(trim(s)) {
            Some(v) => v as int,
            None => RECORDING_STOP_GRACE_DEFAULT_MS as int,
        },
        None => RECORDING_STOP_GRACE_DEFAULT_MS as int,
    };
    clamp(v, RECORDING_STOP_GRACE_MIN_MS as int, RECORDING_STOP_GRACE_MAX_MS as int)
}

pub fn recording_stop_grace_ms(raw: Option<&str>) -> (r: u64)
    ensures
        r == stop_grace(
            match raw {
                Some(s) => Some(s@),
                None => None,
            },
        ),
{
    let v = match raw {
        Some(s) => match parse_u64(trim_str(s)) {
            Some(v) => v,
            None => RECORDING_STOP_GRACE_DEFAULT_MS,
        },
        None => RECORDING_STOP_GRACE_DEFAULT_MS,
    };
    clamp_u64(v, RECORDING_STOP_GRACE_MIN_MS, RECORDING_STOP_GRACE_MAX_MS)
}

/// The codec a lower-cased name denotes.
pub open spec fn codec_named(s: Seq<char>) -> Option<RecordingCodec> {
    if s == "h264"@ || s == "avc"@ {
        Some(RecordingCodec::H264)
    } else if s == "h265"@ || s == "hevc"@ {
        Some(RecordingCodec::H265)
    } else {
        None
    }
}

fn codec_named_exec(s: &str) -> (r: Option<RecordingCodec>)
    ensures
        r == codec_named(s@),
{
    if seq_eq(s, "h264") || seq_eq(s, "avc") {
        Some(RecordingCodec::H264)
    } else if seq_eq(s, "h265") || seq_eq(s, "hevc") {
        Some(RecordingCodec::H265)
    } else {
        None
    }
}

/// A name, trimmed and lower-cased, or the default when absent.
pub open spec fn normalized_or(raw: Option<Seq<char>>, default: Seq<char>) -> Seq<char> {
    lower_seq(
        trim(
            match raw {
                Some(s) => s,
                None => default,
            },
        ),
    )
}

fn normalized_or_exec(raw: Option<&str>, default: &str) -> (r: String)
    ensures
        r@ == normalized_or(opt_view(raw), default@),
{
    let s = match raw {
        Some(s) => s,
        None => default,
    };
    to_lower(trim_str(s))
}

pub open spec fn opt_view(o: Option<&str>) -> Option<Seq<char>> {
    match o {
        Some(s) => Some(s@),
        None => None,
    }
}

/// Why a recording request was refused; the message names what was wrong.
#[derive(Debug, Clone, PartialEq, Eq)]
pub struct RecordingOptionError {
    pub message: String,
}

/// What a start request's `codec` and `container` fields give: a codec
/// (H.265 by default), a container (raw by default), where a container
/// named after a codec means a raw stream of that codec.
pub open spec fn recording_options(codec: Option<Seq<char>>, container: Option<Seq<char>>) -> Result<(RecordingContainer, RecordingCodec), Seq<char>> {
    let c = normalized_or(codec, "h265"@);
    match codec_named(c) {
        None => Err("unsupported codec: "@ + c),
        Some(cd) => {
            let k = normalized_or(container, "raw"@);
            if k == "mp4"@ {
                Ok((RecordingContainer::Mp4, cd))
            } else if k == "raw"@ || k == "annexb"@ {
                Ok((RecordingContainer::Raw, cd))
            } else if codec_named(k) is Some {
                Ok((RecordingContainer::Raw, codec_named(k)->0))
            } else {
                Err("unsupported container: "@ + k)
            }
        },
    }
}

pub open spec fn err_view<T>(r: Result<T, RecordingOptionError>) -> Result<T, Seq<char>> {
    match r {
        Ok(v) => Ok(v),
        Err(e) => Err(e.message@),
    }
}

fn refuse(prefix: &str, what: String) -> (r: RecordingOptionError)
    ensures
        r.message@ == prefix@ + what@,
{
    let mut message = owned(prefix);
    message.append(what.as_str());
    RecordingOptionError { message }
}

/// Parses the codec and container of a start-recording request.
pub fn parse_recording_options(codec: Option<&str>, container: Option<&str>) -> (r: Result<(RecordingContainer, RecordingCodec), RecordingOptionError>)
    ensures
        err_view(r) == recording_options(opt_view(codec), opt_view(container)),
{
    let c = normalized_or_exec(codec, "h265");
    let cd = match codec_named_exec(c.as_str()) {
        Some(cd) => cd,
        None => return Err(refuse("unsupported codec: ", c)),
    };
    let k = normalized_or_exec(container, "raw");
    if seq_eq(k.as_str(), "mp4") {
        Ok((RecordingContainer::Mp4, cd))
    } else if seq_eq(k.as_str(), "raw") || seq_eq(k.as_str(), "annexb") {
        Ok((RecordingContainer::Raw, cd))
    } else {
        match codec_named_exec(k.as_str()) {
            Some(named) => Ok((RecordingContainer::Raw, named)),
            None => Err(refuse("unsupported container: ", k)),
        }
    }
}

/// The container of a shadow-buffer capture (raw by default).
pub open spec fn capture_container(container: Option<Seq<char>>) -> Result<RecordingContainer, Seq<char>> {
    let k = normalized_or(container, "raw"@);
    if k == "mp4"@ {
        Ok(RecordingContainer::Mp4)
    } else if k == "raw"@ || k == "annexb"@ || codec_named(k) is Some {
        Ok(RecordingContainer::Raw)
    } else {
        Err("unsupported container: "@ + k)
    }
}

pub fn parse_capture_container(container: Option<&str>) -> (r: Result<RecordingContainer, RecordingOptionError>)
    ensures
        err_view(r) == capture_container(opt_view(container)),
{
    let k = normalized_or_exec(container, "raw");
    if seq_eq(k.as_str(), "mp4") {
        Ok(RecordingContainer::Mp4)
    } else if seq_eq(k.as_str(), "raw") || seq_eq(k.as_str(), "annexb") || codec_named_exec(k.as_str()).is_some() {
        Ok(RecordingContainer::Raw)
    } else {
        Err(refuse("unsupported container: ", k))
    }
}

/// An explicit codec for a capture: none when absent or blank.
pub open spec fn codec_override(value: Option<Seq<char>>) -> Result<Option<RecordingCodec>, Seq<char>> {
    match value {
        None => Ok(None),
        Some(v) => if trim(v).len() == 0 {
            Ok(None)
        } else {
            let c = lower_seq(trim(v));
            match codec_named(c) {
                Some(cd) => Ok(Some(cd)),
                None => Err("unsupported codec: "@ + c),
            }
        },
    }
}

pub fn parse_codec_override(value: Option<&str>) -> (r: Result<Option<RecordingCodec>, RecordingOptionError>)
    ensures
        err_view(r) == codec_override(opt_view(value)),
{
    let raw = match value {
        None => return Ok(None),
        Some(v) => trim_str(v),
    };
    if raw.unicode_len() == 0 {
        return Ok(None);
    }
    let c = to_lower(raw);
    match codec_named_exec(c.as_str()) {
        Some(cd) => Ok(Some(cd)),
        None => Err(refuse("unsupported codec: ", c)),
    }
}

/// The recording codec an encoder selector implies: H.265 when its
/// lower-cased name mentions `h265` or `hevc`, else H.264 when it mentions
/// `h264` or `avc`.
pub open spec fn codec_of_encoder(encoder_id: Seq<char>) -> Option<RecordingCodec> {
    let n = lower_seq(encoder_id);
    if contains(n, "h265"@) || contains(n, "hevc"@) {
        Some(RecordingCodec::H265)
    } else if contains(n, "h264"@) || contains(n, "avc"@) {
        Some(RecordingCodec::H264)
    } else {
        None
    }
}

/// The codec of a stream's encoder, when its selector names one.
pub fn codec_for_encoder_id(encoder_id: Option<&str>) -> (r: Option<RecordingCodec>)
    ensures
        r == codec_of_encoder(
            match encoder_id {
                Some(e) => e@,
                None => ""@,
            },
        ),
{
    let id = match encoder_id {
        Some(e) => e,
        None => "",
    };
    let n = to_lower(id);
    if contains_str(n.as_str(), "h265") || contains_str(n.as_str(), "hevc") {
        Some(RecordingCodec::H265)
    } else if contains_str(n.as_str(), "h264") || contains_str(n.as_str(), "avc") {
        Some(RecordingCodec::H264)
    } else {
        None
    }
}

/// The integer encoder settings of a recording request that are in range.
#[derive(Debug, Clone, Copy, PartialEq, Eq, Structural)]
pub struct RecordingSettingLimits {
    pub bitrate_bps: Option<u64>,
    pub gop: Option<i32>,
    pub quality: Option<u8>,
    pub max_width: Option<u32>,
    pub max_height: Option<u32>,
}

pub open spec fn keep_u64_positive(v: Option<u64>) -> Option<u64> {
    match v {
        Some(x) => if x > 0 {
            Some(x)
        } else {
            None
        },
        None => None,
    }
}

pub open spec fn keep_u32_positive(v: Option<u32>) -> Option<u32> {
    match v {
        Some(x) => if x > 0 {
            Some(x)
        } else {
            None
        },
        None => None,
    }
}

/// The settings that survive the filters, or none when nothing survives;
/// `fps_given` says whether a positive frame rate was requested.
pub open spec fn setting_limits(
    fps_given: bool,
    bitrate_bps: Option<u64>,
    gop: Option<i32>,
    quality: Option<u8>,
    max_width: Option<u32>,
    max_height: Option<u32>,
) -> Option<RecordingSettingLimits> {
    let l = RecordingSettingLimits {
        bitrate_bps: keep_u64_positive(bitrate_bps),
        gop: match gop {
            Some(g) => if g > 0 {
                Some(g)
            } else {
                None
            },
            None => None,
        },
        quality: match quality {
            Some(q) => if q <= 51 {
                Some(q)
            } else {
                None
            },
            None => None,
        },
        max_width: keep_u32_positive(max_width),
        max_height: keep_u32_positive(max_height),
    };
    if !fps_given && l.bitrate_bps is None && l.gop is None && l.quality is None && l.max_width is None
        && l.max_height is None {
        None
    } else {
        Some(l)
    }
}

/// Filters the encoder settings of a recording request: positive bitrate,
/// GOP and size limits, a quality of at most 51.
pub fn parse_recording_settings(
    fps_given: bool,
    bitrate_bps: Option<u64>,
    gop: Option<i32>,
    quality: Option<u8>,
    max_width: Option<u32>,
    max_height: Option<u32>,
) -> (r: Option<RecordingSettingLimits>)
    ensures
        r == setting_limits(fps_given, bitrate_bps, gop, quality, max_width, max_height),
{
    let bitrate_bps = match bitrate_bps {
        Some(x) => if x > 0 { Some(x) } else { None },
        None => None,
    };
    let gop = match gop {
        Some(g) => if g > 0 { Some(g) } else { None },
        None => None,
    };
    let quality = match quality {
        Some(q) => if q <= 51 { Some(q) } else { None },
        None => None,
    };
    let max_width = match max_width {
        Some(x) => if x > 0 { Some(x) } else { None },
        None => None,
    };
    let max_height = match max_height {
        Some(x) => if x > 0 { Some(x) } else { None },
        None => None,
    };
    if !fps_given && bitrate_bps.is_none() && gop.is_none() && quality.is_none() && max_width.is_none()
        && max_height.is_none() {
        return None;
    }
    Some(RecordingSettingLimits { bitrate_bps, gop, quality, max_width, max_height })
}

/// Where a recording takes its frames from.
#[derive(Debug, Clone, Copy, PartialEq, Eq, Structural)]
pub enum RecordingSourceKind {
    /// The stream as it is sent out, with its own encoder.
    Multiplex,
    /// The camera's raw frames.
    Raw,
    /// An output of a pipeline.
    Pipeline,
}

/// A codec was named: the field is there and not blank.
pub open spec fn codec_named_explicitly(codec: Option<Seq<char>>) -> bool {
    codec matches Some(c) && trim(c).len() > 0
}

/// A recording of the multiplexed stream takes the stream's own codec
/// unless the request named one.
pub fn recording_follows_stream_codec(codec: Option<&str>, source: RecordingSourceKind) -> (r: bool)
    ensures
        r == (!codec_named_explicitly(opt_view(codec)) && source == RecordingSourceKind::Multiplex),
{
    let named = match codec {
        Some(c) => trim_str(c).unicode_len() > 0,
        None => false,
    };
    !named && source == RecordingSourceKind::Multiplex
}

/// The codec a recording uses: the one the request gave (or its default),
/// replaced by the stream's own codec when the recording follows the stream
/// and the engine told which codec that is (`stream_codec`).
pub fn recording_codec(
    parsed: RecordingCodec,
    codec: Option<&str>,
    source: RecordingSourceKind,
    stream_codec: Option<RecordingCodec>,
) -> (r: RecordingCodec)
    ensures
        r == (match stream_codec {
            Some(c) => if !codec_named_explicitly(opt_view(codec)) && source == RecordingSourceKind::Multiplex {
                c
            } else {
                parsed
            },
            None => parsed,
        }),
{
    if recording_follows_stream_codec(codec, source) {
        match stream_codec {
            Some(c) => c,
            None => parsed,
        }
    } else {
        parsed
    }
}

/// When the container is `raw`, `annexb` or `mp4` (any case, blanks
/// around it ignored; no container means raw), the codec comes from the
/// codec field alone: H.264 exactly when that field names `h264` or `avc`,
/// H.265 when it names `h265` or `hevc` or is absent, and any other codec is
/// refused. `raw` and `annexb` give a raw stream, `mp4` an MP4 file. A
/// container named after a codec gives a raw stream of that codec, and any
/// other container is refused.
pub proof fn law_codec_field_decides_the_codec(codec: Option<Seq<char>>, container: Option<Seq<char>>)
    ensures
        ({
            let k = normalized_or(container, "raw"@);
            let c = normalized_or(codec, "h265"@);
            (k == "raw"@ || k == "annexb"@ || k == "mp4"@) ==> match recording_options(codec, container) {
                Ok((kind, cd)) => (cd == RecordingCodec::H264 <==> (c == "h264"@ || c == "avc"@)) && (c == "h264"@
                    || c == "avc"@ || c == "h265"@ || c == "hevc"@) && (kind == RecordingContainer::Mp4 <==> k
                    == "mp4"@),
                Err(_) => !(c == "h264"@ || c == "avc"@ || c == "h265"@ || c == "hevc"@),
            }
        }),
        ({
            let k = normalized_or(container, "raw"@);
            let c = normalized_or(codec, "h265"@);
            (c == "h264"@ || c == "avc"@ || c == "h265"@ || c == "hevc"@) ==> {
                &&& (k == "h264"@ || k == "avc"@) ==> recording_options(codec, container) == Ok::<
                    (RecordingContainer, RecordingCodec),
                    Seq<char>,
                >((RecordingContainer::Raw, RecordingCodec::H264))
                &&& (k == "h265"@ || k == "hevc"@) ==> recording_options(codec, container) == Ok::<
                    (RecordingContainer, RecordingCodec),
                    Seq<char>,
                >((RecordingContainer::Raw, RecordingCodec::H265))
                &&& !(k == "raw"@ || k == "annexb"@ || k == "mp4"@ || k == "h264"@ || k == "avc"@ || k == "h265"@
                    || k == "hevc"@) ==> recording_options(codec, container) is Err
            }
        }),
{
    reveal_strlit("raw");
    reveal_strlit("annexb");
    reveal_strlit("mp4");
    reveal_strlit("h264");
    reveal_strlit("avc");
    reveal_strlit("h265");
    reveal_strlit("hevc");
    let k = normalized_or(container, "raw"@);
    if k == "h264"@ || k == "avc"@ || k == "h265"@ || k == "hevc"@ {
        assert(k != "mp4"@ && k != "raw"@ && k != "annexb"@) by {
            if k == "mp4"@ || k == "raw"@ || k == "annexb"@ {
                assert(k.len() == "mp4"@.len() || k.len() == "annexb"@.len());
                assert(k[0] == "mp4"@[0] || k[0] == "raw"@[0] || k[0] == "annexb"@[0]);
            }
        }
        if k == "h265"@ || k == "hevc"@ {
            assert(k != "h264"@ && k != "avc"@) by {
                if k == "h264"@ || k == "avc"@ {
                    assert(k.len() == "h264"@.len() || k.len() == "avc"@.len());
                    assert(k[1] == "h264"@[1] || k[0] == "avc"@[0]);
                    assert(k[3] == "h264"@[3] || k[0] == "avc"@[0]);
                }
            }
            assert(codec_named(k) == Some(RecordingCodec::H265));
        } else {
            assert(codec_named(k) == Some(RecordingCodec::H264));
        }
    }
}

} // verus!
