//! The decisions of the preview and MJPEG frame pumps: which frames of the
//! shared-memory preview are sent, when to wait, and when an outage has
//! lasted long enough to give up. The loops that read the shared memory
//! and sleep hand each reading to a pump and do what it answers.
use vstd::prelude::*;

verus! {

/// `MJPG` and `JPEG` as four-character codes (little-endian `u32`).
pub const FOURCC_MJPG: u32 = 0x4750_4A4D;
pub const FOURCC_JPEG: u32 = 0x4745_504A;

pub open spec fn jpeg_fourcc(fourcc: u32) -> bool {
    fourcc == FOURCC_MJPG || fourcc == FOURCC_JPEG
}

pub fn is_mjpeg_fourcc(fourcc: u32) -> (r: bool)
    ensures
        r == jpeg_fourcc(fourcc),
{
    fourcc == FOURCC_MJPG || fourcc == FOURCC_JPEG
}

/// What a pump reads of a frame header.
#[derive(Debug, Clone, Copy, PartialEq, Eq, Structural)]
pub struct FrameHeader {
    pub seq: u64,
    pub len: u32,
    pub fourcc: u32,
}

/// A header that describes a frame at all: some length and a format.
pub open spec fn header_ready(h: FrameHeader) -> bool {
    h.len > 0 && h.fourcc != 0
}

pub fn preview_header_ready(h: FrameHeader) -> (r: bool)
    ensures
        r == header_ready(h),
{
    h.len > 0 && h.fourcc != 0
}

/// What a pump tells its loop to do next.
#[derive(Debug, Clone, Copy, PartialEq, Eq, Structural)]
pub enum PumpAction {
    /// Sleep one poll interval, then read again.
    Wait,
    /// The outage lasted too long: end the feed.
    Stop,
    /// Read the frame the header announced.
    ReadFrame,
    /// Send the frame just read; `length` is the prefix a raw preview
    /// writes before it (the payload length, at most `u32::MAX`).
    Send { length: u32 },
}

/// The time since the preview first became unavailable, and when that
/// outage ends the feed.
pub open spec fn outage_over(first_ms: u64, now_ms: u64, outage_ms: u64) -> bool {
    (if now_ms >= first_ms {
        now_ms - first_ms
    } else {
        0
    }) >= outage_ms
}

/// A raw preview pump: the last frame sent and when reading began to fail.
#[derive(Debug, Clone, Copy, PartialEq, Eq, Structural)]
pub struct PreviewPump {
    pub last_seq: u64,
    pub failing_since_ms: Option<u64>,
}

/// One reading of the raw preview.
#[derive(Debug, Clone, Copy, PartialEq, Eq, Structural)]
pub enum PreviewReading {
    Failed { now_ms: u64 },
    NothingNewer,
    Frame { header: FrameHeader, payload_len: usize },
}

pub open spec fn prefix_length(payload_len: usize) -> u32 {
    if payload_len > u32::MAX {
        u32::MAX
    } else {
        payload_len as u32
    }
}

/// The raw preview pump's rule: a failed read waits, or stops once
/// failures lasted `outage_ms`; any other reading ends the outage; a new,
/// well-formed frame is sent and remembered, anything else waits.
pub open spec fn preview_step(p: PreviewPump, reading: PreviewReading, outage_ms: u64) -> (PreviewPump, PumpAction) {
    match reading {
        PreviewReading::Failed { now_ms } => {
            let first = match p.failing_since_ms {
                Some(t) => t,
                None => now_ms,
            };
            (
                PreviewPump { failing_since_ms: Some(first), ..p },
                if outage_over(first, now_ms, outage_ms) {
                    PumpAction::Stop
                } else {
                    PumpAction::Wait
                },
            )
        },
        PreviewReading::NothingNewer => (PreviewPump { failing_since_ms: None, ..p }, PumpAction::Wait),
        PreviewReading::Frame { header, payload_len } => if !header_ready(header) || header.seq == p.last_seq {
            (PreviewPump { failing_since_ms: None, ..p }, PumpAction::Wait)
        } else {
            (
                PreviewPump { last_seq: header.seq, failing_since_ms: None },
                PumpAction::Send { length: prefix_length(payload_len) },
            )
        },
    }
}

impl PreviewPump {
    pub fn new() -> (r: Self)
        ensures
            r.last_seq == 0,
            r.failing_since_ms is None,
    {
        PreviewPump { last_seq: 0, failing_since_ms: None }
    }

    pub fn step(&mut self, reading: PreviewReading, outage_ms: u64) -> (r: PumpAction)
        ensures
            (*final(self), r) == preview_step(*old(self), reading, outage_ms),
    {
        match reading {
            PreviewReading::Failed { now_ms } => {
                let first = match self.failing_since_ms {
                    Some(t) => t,
                    None => now_ms,
                };
                self.failing_since_ms = Some(first);
                if now_ms.saturating_sub(first) >= outage_ms {
                    PumpAction::Stop
                } else {
                    PumpAction::Wait
                }
            },
            PreviewReading::NothingNewer => {
                self.failing_since_ms = None;
                PumpAction::Wait
            },
            PreviewReading::Frame { header, payload_len } => {
                self.failing_since_ms = None;
                if !preview_header_ready(header) || header.seq == self.last_seq {
                    PumpAction::Wait
                } else {
                    self.last_seq = header.seq;
                    let length: u32 = if payload_len > 0xffff_ffffusize {
                        0xffff_ffffu32
                    } else {
                        payload_len as u32
                    };
                    PumpAction::Send { length }
                }
            },
        }
    }
}

/// The little-endian bytes of a raw preview frame's length prefix.
pub fn length_prefix_bytes(length: u32) -> (r: [u8; 4])
    ensures
        r@.len() == 4,
        r@[0] as u32 == length & 0xff,
        r@[1] as u32 == (length >> 8u32) & 0xff,
        r@[2] as u32 == (length >> 16u32) & 0xff,
        r@[3] as u32 == (length >> 24u32) & 0xff,
        r@[0] + 256 * r@[1] + 65536 * r@[2] + 16777216 * r@[3] == length,
{
    let b0 = (length & 0xff) as u8;
    let b1 = ((length >> 8u32) & 0xff) as u8;
    let b2 = ((length >> 16u32) & 0xff) as u8;
    let b3 = ((length >> 24u32) & 0xff) as u8;
    assert(b0 + 256 * b1 + 65536 * b2 + 16777216 * b3 == length) by (bit_vector)
        requires
            b0 == (length & 0xff) as u8,
            b1 == ((length >> 8u32) & 0xff) as u8,
            b2 == ((length >> 16u32) & 0xff) as u8,
            b3 == ((length >> 24u32) & 0xff) as u8,
    ;
    assert(b0 as u32 == length & 0xff) by (bit_vector)
        requires
            b0 == (length & 0xff) as u8,
    ;
    assert(b1 as u32 == (length >> 8u32) & 0xff) by (bit_vector)
        requires
            b1 == ((length >> 8u32) & 0xff) as u8,
    ;
    assert(b2 as u32 == (length >> 16u32) & 0xff) by (bit_vector)
        requires
            b2 == ((length >> 16u32) & 0xff) as u8,
    ;
    assert(b3 as u32 == (length >> 24u32) & 0xff) by (bit_vector)
        requires
            b3 == ((length >> 24u32) & 0xff) as u8,
    ;
    [b0, b1, b2, b3]
}

// ---------------------------------------------------------------------------
// The MJPEG feed.

/// An MJPEG pump: the last frame sent and when the preview became
/// unavailable (unreadable, or not in a JPEG format).
#[derive(Debug, Clone, Copy, PartialEq, Eq, Structural)]
pub struct MjpegPump {
    pub last_seq: u64,
    pub unavailable_since_ms: Option<u64>,
}

/// One reading of the MJPEG feed: first the latest header, then, when the
/// pump asks for it, the frame.
#[derive(Debug, Clone, Copy, PartialEq, Eq, Structural)]
pub enum MjpegReading {
    HeaderFailed { now_ms: u64 },
    Header { header: FrameHeader, now_ms: u64 },
    FrameFailed { now_ms: u64 },
    NothingNewer,
    Frame { header: FrameHeader, byte_len: usize, listeners: bool },
}

pub open spec fn mark_unavailable(p: MjpegPump, now_ms: u64, outage_ms: u64) -> (MjpegPump, PumpAction) {
    let first = match p.unavailable_since_ms {
        Some(t) => t,
        None => now_ms,
    };
    (
        MjpegPump { unavailable_since_ms: Some(first), ..p },
        if outage_over(first, now_ms, outage_ms) {
            PumpAction::Stop
        } else {
            PumpAction::Wait
        },
    )
}

/// The MJPEG pump's rule: failures and non-JPEG headers count toward the
/// outage; a header of a new, well-formed JPEG frame asks for the frame; a
/// JPEG frame ends the outage and is sent when it is new, not empty, and
/// someone listens.
pub open spec fn mjpeg_step(p: MjpegPump, reading: MjpegReading, outage_ms: u64) -> (MjpegPump, PumpAction) {
    match reading {
        MjpegReading::HeaderFailed { now_ms } => mark_unavailable(p, now_ms, outage_ms),
        MjpegReading::Header { header, now_ms } => if header.seq == p.last_seq || !header_ready(header) {
            (p, PumpAction::Wait)
        } else if !jpeg_fourcc(header.fourcc) {
            mark_unavailable(p, now_ms, outage_ms)
        } else {
            (p, PumpAction::ReadFrame)
        },
        MjpegReading::FrameFailed { now_ms } => mark_unavailable(p, now_ms, outage_ms),
        MjpegReading::NothingNewer => (p, PumpAction::Wait),
        MjpegReading::Frame { header, byte_len, listeners } => if !jpeg_fourcc(header.fourcc) {
            (p, PumpAction::Wait)
        } else if header.seq == p.last_seq || byte_len == 0 || !listeners {
            (MjpegPump { unavailable_since_ms: None, ..p }, PumpAction::Wait)
        } else {
            (MjpegPump { last_seq: header.seq, unavailable_since_ms: None }, PumpAction::Send { length: prefix_length(byte_len) })
        },
    }
}

impl MjpegPump {
    pub fn new() -> (r: Self)
        ensures
            r.last_seq == 0,
            r.unavailable_since_ms is None,
    {
        MjpegPump { last_seq: 0, unavailable_since_ms: None }
    }

    fn unavailable(&mut self, now_ms: u64, outage_ms: u64) -> (r: PumpAction)
        ensures
            (*final(self), r) == mark_unavailable(*old(self), now_ms, outage_ms),
    {
        let first = match self.unavailable_since_ms {
            Some(t) => t,
            None => now_ms,
        };
        self.unavailable_since_ms = Some(first);
        if now_ms.saturating_sub(first) >= outage_ms {
            PumpAction::Stop
        } else {
            PumpAction::Wait
        }
    }

    pub fn step(&mut self, reading: MjpegReading, outage_ms: u64) -> (r: PumpAction)
        ensures
            (*final(self), r) == mjpeg_step(*old(self), reading, outage_ms),
    {
        match reading {
            MjpegReading::HeaderFailed { now_ms } => self.unavailable(now_ms, outage_ms),
            MjpegReading::Header { header, now_ms } => {
                if header.seq == self.last_seq || !preview_header_ready(header) {
                    PumpAction::Wait
                } else if !is_mjpeg_fourcc(header.fourcc) {
                    self.unavailable(now_ms, outage_ms)
                } else {
                    PumpAction::ReadFrame
                }
            },
            MjpegReading::FrameFailed { now_ms } => self.unavailable(now_ms, outage_ms),
            MjpegReading::NothingNewer => PumpAction::Wait,
            MjpegReading::Frame { header, byte_len, listeners } => {
                if !is_mjpeg_fourcc(header.fourcc) {
                    return PumpAction::Wait;
                }
                self.unavailable_since_ms = None;
                if header.seq == self.last_seq || byte_len == 0 || !listeners {
                    PumpAction::Wait
                } else {
                    self.last_seq = header.seq;
                    let length: u32 = if byte_len > 0xffff_ffffusize {
                        0xffff_ffffu32
                    } else {
                        byte_len as u32
                    };
                    PumpAction::Send { length }
                }
            },
        }
    }
}

/// A pump never sends the same frame twice in a row: a frame is sent only
/// when its sequence number differs from the last one sent, which it then
/// becomes.
pub proof fn law_pumps_never_resend_a_frame(p: PreviewPump, reading: PreviewReading, m: MjpegPump, mr: MjpegReading, outage_ms: u64)
    ensures
        preview_step(p, reading, outage_ms).1 is Send ==> (reading matches PreviewReading::Frame { header, .. }
            && header.seq != p.last_seq && preview_step(p, reading, outage_ms).0.last_seq == header.seq),
        mjpeg_step(m, mr, outage_ms).1 is Send ==> (mr matches MjpegReading::Frame { header, .. } && header.seq
            != m.last_seq && mjpeg_step(m, mr, outage_ms).0.last_seq == header.seq),
{
}

/// A pump gives up only after reads kept failing (or the format kept being
/// wrong) for the whole outage window.
pub proof fn law_pumps_stop_only_after_outage(p: PreviewPump, reading: PreviewReading, m: MjpegPump, mr: MjpegReading, outage_ms: u64)
    ensures
        preview_step(p, reading, outage_ms).1 is Stop ==> (reading matches PreviewReading::Failed { now_ms }
            && outage_over(preview_step(p, reading, outage_ms).0.failing_since_ms->0, now_ms, outage_ms)),
        mjpeg_step(m, mr, outage_ms).1 is Stop ==> mjpeg_step(m, mr, outage_ms).0.unavailable_since_ms is Some,
{
}

} // verus!
