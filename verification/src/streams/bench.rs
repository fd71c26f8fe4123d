//! The rules of the codec and sensor benchmarks: their defaults, which
//! capture modes they measure, the sampling window, the warnings they
//! collect, and the progress and status of a sensor benchmark job.
use vstd::prelude::*;
use crate::text::{decimal, decimal_string, owned, push_decimal};

verus! {

/// Frames per second asked of a benchmarked stream unless given.
pub fn default_target_fps() -> (r: u32)
    ensures
        r == 120,
{
    120
}

/// Milliseconds of each sampling window unless given.
pub fn default_sample_ms() -> (r: u64)
    ensures
        r == 1500,
{
    1500
}

/// Streams that hold the benchmarked device are stopped and restored
/// unless told otherwise.
pub fn default_restore_existing() -> (r: bool)
    ensures
        r,
{
    true
}

/// Where sensor benchmark results are stored, under the data root.
pub fn bench_dir_name() -> (r: &'static str)
    ensures
        r@ == "sensor-benchmarks"@,
{
    "sensor-benchmarks"
}

/// A capture mode a device offers: a key by which the caller finds the
/// mode again, its pixel format code and its resolution.
#[derive(Debug, Clone, Copy, PartialEq, Eq, Structural)]
pub struct BenchMode {
    pub key: u64,
    pub fourcc: u32,
    pub width: u32,
    pub height: u32,
}

/// The modes at one resolution, in the device's order.
pub open spec fn modes_at(modes: Seq<BenchMode>, width: u32, height: u32) -> Seq<BenchMode>
    decreases modes.len(),
{
    if modes.len() == 0 {
        Seq::empty()
    } else {
        let p = modes_at(modes.drop_last(), width, height);
        let m = modes.last();
        if m.width == width && m.height == height {
            p.push(m)
        } else {
            p
        }
    }
}

pub fn modes_at_resolution(modes: &Vec<BenchMode>, width: u32, height: u32) -> (r: Vec<BenchMode>)
    ensures
        r@ == modes_at(modes@, width, height),
{
    let mut out: Vec<BenchMode> = Vec::new();
    let mut i: usize = 0;
    while i < modes.len()
        invariant
            i <= modes@.len(),
            out@ == modes_at(modes@.subrange(0, i as int), width, height),
        decreases modes@.len() - i,
    {
        assert(modes@.subrange(0, i + 1).drop_last() =~= modes@.subrange(0, i as int));
        let m = modes[i];
        if m.width == width && m.height == height {
            out.push(m);
        }
        i = i + 1;
    }
    assert(modes@.subrange(0, modes@.len() as int) =~= modes@);
    out
}

/// The modes a sensor benchmark measures: all of the device's, or those
/// whose key is among the wanted ones, in the device's order.
pub open spec fn modes_wanted(modes: Seq<BenchMode>, wanted: Seq<u64>) -> Seq<BenchMode>
    decreases modes.len(),
{
    if wanted.len() == 0 {
        modes
    } else if modes.len() == 0 {
        Seq::empty()
    } else {
        let p = modes_wanted(modes.drop_last(), wanted);
        if wanted.contains(modes.last().key) {
            p.push(modes.last())
        } else {
            p
        }
    }
}

fn holds_u64(v: &Vec<u64>, x: u64) -> (r: bool)
    ensures
        r == v@.contains(x),
{
    let mut i: usize = 0;
    while i < v.len()
        invariant
            i <= v@.len(),
            forall|j: int| 0 <= j < i ==> v@[j] != x,
        decreases v@.len() - i,
    {
        if v[i] == x {
            return true;
        }
        i = i + 1;
    }
    false
}

pub fn select_bench_modes(modes: &Vec<BenchMode>, wanted: &Vec<u64>) -> (r: Vec<BenchMode>)
    ensures
        r@ == modes_wanted(modes@, wanted@),
{
    if wanted.len() == 0 {
        return modes.clone();
    }
    let mut out: Vec<BenchMode> = Vec::new();
    let mut i: usize = 0;
    while i < modes.len()
        invariant
            wanted@.len() > 0,
            i <= modes@.len(),
            out@ == modes_wanted(modes@.subrange(0, i as int), wanted@),
        decreases modes@.len() - i,
    {
        assert(modes@.subrange(0, i + 1).drop_last() =~= modes@.subrange(0, i as int));
        let m = modes[i];
        if holds_u64(wanted, m.key) {
            out.push(m);
        }
        i = i + 1;
    }
    assert(modes@.subrange(0, modes@.len() as int) =~= modes@);
    out
}

/// `{width}x{height}`.
pub open spec fn resolution_text(width: u32, height: u32) -> Seq<char> {
    decimal(width as nat) + "x"@ + decimal(height as nat)
}

pub fn resolution_label(width: u32, height: u32) -> (r: String)
    ensures
        r@ == resolution_text(width, height),
{
    let mut out = decimal_string(width as u64);
    out.append("x");
    push_decimal(&mut out, height as u64);
    proof {
        reveal_strlit("x");
    }
    out
}

/// The warning when no mode has the requested resolution.
pub fn no_modes_warning(width: u32, height: u32) -> (r: String)
    ensures
        r@ == "no modes for "@ + resolution_text(width, height),
{
    let mut out = owned("no modes for ");
    let label = resolution_label(width, height);
    out.append(label.as_str());
    out
}

/// The warning when the device or its backend is not found.
pub fn device_not_found_warning() -> (r: String)
    ensures
        r@ == "device/backend not found"@,
{
    owned("device/backend not found")
}

/// How long a sampling window lasts: a frame count with a timeout when
/// both are given (at least one frame, at least 100 ms), else no frame
/// count and the sample time (at least 100 ms).
#[derive(Debug, Clone, Copy, PartialEq, Eq, Structural)]
pub struct SampleWindow {
    pub frames: u64,
    pub timeout_ms: u64,
}

pub open spec fn window_for(sample_frames: Option<u32>, sample_timeout_ms: Option<u64>, sample_ms: u64) -> SampleWindow {
    match (sample_frames, sample_timeout_ms) {
        (Some(f), Some(t)) => SampleWindow {
            frames: if f < 1 {
                1
            } else {
                f as u64
            },
            timeout_ms: if t < 100 {
                100
            } else {
                t
            },
        },
        _ => SampleWindow {
            frames: 0,
            timeout_ms: if sample_ms < 100 {
                100
            } else {
                sample_ms
            },
        },
    }
}

pub fn sample_window_from_req(sample_frames: Option<u32>, sample_timeout_ms: Option<u64>, sample_ms: u64) -> (r: SampleWindow)
    ensures
        r == window_for(sample_frames, sample_timeout_ms, sample_ms),
{
    match (sample_frames, sample_timeout_ms) {
        (Some(f), Some(t)) => SampleWindow {
            frames: if f < 1 {
                1
            } else {
                f as u64
            },
            timeout_ms: if t < 100 {
                100
            } else {
                t
            },
        },
        _ => SampleWindow {
            frames: 0,
            timeout_ms: if sample_ms < 100 {
                100
            } else {
                sample_ms
            },
        },
    }
}

/// A window with a frame count ends once that many frames were seen.
pub open spec fn window_filled(window: SampleWindow, start_seq: u64, current_seq: u64) -> bool {
    window.frames != 0 && (if current_seq >= start_seq {
        current_seq - start_seq
    } else {
        0
    }) >= window.frames
}

pub fn sample_window_filled(window: SampleWindow, start_seq: u64, current_seq: u64) -> (r: bool)
    ensures
        r == window_filled(window, start_seq, current_seq),
{
    window.frames != 0 && current_seq.saturating_sub(start_seq) >= window.frames
}

// ---------------------------------------------------------------------------
// Warnings.

/// A step of a benchmark run that failed.
#[derive(Debug, Clone, PartialEq, Eq)]
pub enum BenchFailure {
    Start,
    BaselineMetrics,
    DecoderSet { implementation: String },
    DecoderMetrics { implementation: String },
    EncoderInputDecoderSet { implementation: String },
    EncoderSet { implementation: String },
    EncoderMetrics { implementation: String },
}

pub open spec fn failure_text(f: BenchFailure) -> Seq<char> {
    match f {
        BenchFailure::Start => "start failed"@,
        BenchFailure::BaselineMetrics => "baseline metrics failed"@,
        BenchFailure::DecoderSet { implementation } => "decoder "@ + implementation@ + " set failed"@,
        BenchFailure::DecoderMetrics { implementation } => "decoder "@ + implementation@ + " metrics failed"@,
        BenchFailure::EncoderInputDecoderSet { implementation } => "encoder input decoder "@ + implementation@
            + " set failed"@,
        BenchFailure::EncoderSet { implementation } => "encoder "@ + implementation@ + " set failed"@,
        BenchFailure::EncoderMetrics { implementation } => "encoder "@ + implementation@ + " metrics failed"@,
    }
}

/// `{subject}: {failure}: {error}`; the subject is the format, or for a
/// sensor benchmark the format and the resolution.
pub open spec fn warning_text(subject: Seq<char>, f: BenchFailure, err: Seq<char>) -> Seq<char> {
    subject + ": "@ + failure_text(f) + ": "@ + err
}

pub fn bench_warning(subject: &str, failure: &BenchFailure, err: &str) -> (r: String)
    ensures
        r@ == warning_text(subject@, *failure, err@),
{
    let mut out = owned(subject);
    out.append(": ");
    match failure {
        BenchFailure::Start => out.append("start failed"),
        BenchFailure::BaselineMetrics => out.append("baseline metrics failed"),
        BenchFailure::DecoderSet { implementation } => {
            out.append("decoder ");
            out.append(implementation.as_str());
            out.append(" set failed");
        },
        BenchFailure::DecoderMetrics { implementation } => {
            out.append("decoder ");
            out.append(implementation.as_str());
            out.append(" metrics failed");
        },
        BenchFailure::EncoderInputDecoderSet { implementation } => {
            out.append("encoder input decoder ");
            out.append(implementation.as_str());
            out.append(" set failed");
        },
        BenchFailure::EncoderSet { implementation } => {
            out.append("encoder ");
            out.append(implementation.as_str());
            out.append(" set failed");
        },
        BenchFailure::EncoderMetrics { implementation } => {
            out.append("encoder ");
            out.append(implementation.as_str());
            out.append(" metrics failed");
        },
    }
    out.append(": ");
    out.append(err);
    assert(out@ =~= warning_text(subject@, *failure, err@));
    out
}

/// The subject of a sensor benchmark warning: `{format} {resolution}`.
pub fn mode_subject(format: &str, resolution: &str) -> (r: String)
    ensures
        r@ == format@ + " "@ + resolution@,
{
    let mut out = owned(format);
    out.append(" ");
    out.append(resolution);
    out
}

// ---------------------------------------------------------------------------
// A sensor benchmark job.

/// How far a sensor benchmark has come.
#[derive(Debug, Clone, PartialEq, Eq)]
pub struct SensorBenchmarkProgress {
    pub total_modes: usize,
    pub completed_modes: usize,
    pub current_format: Option<String>,
    pub current_resolution: Option<String>,
}

impl SensorBenchmarkProgress {
    /// Never more modes done than there are.
    pub open spec fn wf(&self) -> bool {
        self.completed_modes <= self.total_modes
    }

    /// A job that has not looked at its device yet.
    pub fn start() -> (r: Self)
        ensures
            r.total_modes == 0,
            r.completed_modes == 0,
            r.current_format is None,
            r.current_resolution is None,
            r.wf(),
    {
        SensorBenchmarkProgress { total_modes: 0, completed_modes: 0, current_format: None, current_resolution: None }
    }

    /// The number of modes to measure is known.
    pub fn set_total(&mut self, total: usize)
        requires
            old(self).completed_modes == 0,
        ensures
            final(self).total_modes == total,
            final(self).completed_modes == 0,
            final(self).current_format == old(self).current_format,
            final(self).current_resolution == old(self).current_resolution,
            final(self).wf(),
    {
        self.total_modes = total;
    }

    /// Mode `index` (counted from 0) is being measured; those before it
    /// are done.
    pub fn at_mode(&mut self, index: usize, format: String, resolution: String)
        requires
            index < old(self).total_modes,
        ensures
            final(self).total_modes == old(self).total_modes,
            final(self).completed_modes == index,
            final(self).current_format == Some(format),
            final(self).current_resolution == Some(resolution),
            final(self).wf(),
    {
        self.completed_modes = index;
        self.current_format = Some(format);
        self.current_resolution = Some(resolution);
    }

    /// Every mode is done (or the job stopped early): nothing is current.
    pub fn finish(&mut self)
        ensures
            final(self).total_modes == old(self).total_modes,
            final(self).completed_modes == old(self).total_modes,
            final(self).current_format is None,
            final(self).current_resolution is None,
            final(self).wf(),
    {
        self.completed_modes = self.total_modes;
        self.current_format = None;
        self.current_resolution = None;
    }
}

/// A sensor benchmark job's state: still running, its result stored at a
/// path, or failed with a message.
#[derive(Debug, Clone, PartialEq, Eq)]
pub enum BenchJobStatus {
    Running,
    Completed { path: String },
    Failed { error: String },
}

/// What the status request answers for a job: its progress while it runs,
/// the stored result once complete, or the failure.
#[derive(Debug, Clone, PartialEq, Eq)]
pub enum BenchStatusAnswer {
    Running,
    ReadResult { path: String },
    Failed { error: String },
}

pub fn bench_status_answer(status: &BenchJobStatus) -> (r: BenchStatusAnswer)
    ensures
        match *status {
            BenchJobStatus::Running => r == BenchStatusAnswer::Running,
            BenchJobStatus::Completed { path } => r == BenchStatusAnswer::ReadResult { path },
            BenchJobStatus::Failed { error } => r == BenchStatusAnswer::Failed { error },
        },
{
    match status {
        BenchJobStatus::Running => BenchStatusAnswer::Running,
        BenchJobStatus::Completed { path } => BenchStatusAnswer::ReadResult { path: path.clone() },
        BenchJobStatus::Failed { error } => BenchStatusAnswer::Failed { error: error.clone() },
    }
}

/// A stream belongs to a benchmark while a running job measures on it.
pub fn is_benchmark_stream(status: &BenchJobStatus, active_stream_id: Option<u128>, stream_id: u128) -> (r: bool)
    ensures
        r == (*status == BenchJobStatus::Running && active_stream_id == Some(stream_id)),
{
    match status {
        BenchJobStatus::Running => active_stream_id == Some(stream_id),
        _ => false,
    }
}

/// The name of a stored benchmark result: `{id}.json`.
pub fn bench_file_name(benchmark_id: u128) -> (r: String)
    ensures
        r@ == crate::streams::validation::uuid_text(benchmark_id) + ".json"@,
{
    let mut out = crate::streams::validation::uuid_string(benchmark_id);
    out.append(".json");
    out
}

// ---------------------------------------------------------------------------
// The device and backend a benchmark runs on.

/// What the benchmark reads of a device backend: its kind, and whether its
/// handle equals the requested one.
#[derive(Debug, Clone, Copy, PartialEq, Eq, Structural)]
pub struct BackendFacts {
    pub kind: crate::streams::validation::BackendKind,
    pub handle_matches: bool,
}

/// What the benchmark reads of a discovered device.
#[derive(Debug, Clone, PartialEq, Eq)]
pub struct DeviceFacts {
    pub keys: Vec<String>,
    pub backends: Vec<BackendFacts>,
}

/// A device serves the requested keys when it holds one of them; with no
/// keys requested every device does.
pub open spec fn serves_keys(d: DeviceFacts, wanted: Seq<Seq<char>>) -> bool {
    wanted.len() == 0 || exists|i: int| 0 <= i < d.keys@.len() && wanted.contains(#[trigger] d.keys@[i]@)
}

pub open spec fn first_device(ds: Seq<DeviceFacts>, wanted: Seq<Seq<char>>, i: int) -> int
    decreases ds.len() - i,
{
    if i < 0 || i >= ds.len() {
        ds.len() as int
    } else if serves_keys(ds[i], wanted) {
        i
    } else {
        first_device(ds, wanted, i + 1)
    }
}

pub open spec fn first_backend(bs: Seq<BackendFacts>, kind: crate::streams::validation::BackendKind, need_handle: bool, i: int) -> int
    decreases bs.len() - i,
{
    if i < 0 || i >= bs.len() {
        bs.len() as int
    } else if bs[i].kind == kind && (!need_handle || bs[i].handle_matches) {
        i
    } else {
        first_backend(bs, kind, need_handle, i + 1)
    }
}

/// The device and backend a benchmark runs on: the first device serving
/// the keys; on it the first backend of the kind with the requested
/// handle, else the first of the kind; none when either is missing.
pub open spec fn matching_backend(ds: Seq<DeviceFacts>, kind: crate::streams::validation::BackendKind, wanted: Seq<Seq<char>>) -> Option<(int, int)> {
    let d = first_device(ds, wanted, 0);
    if d >= ds.len() {
        None
    } else {
        let bs = ds[d].backends@;
        let exact = first_backend(bs, kind, true, 0);
        let b = if exact < bs.len() {
            exact
        } else {
            first_backend(bs, kind, false, 0)
        };
        if b < bs.len() {
            Some((d, b))
        } else {
            None
        }
    }
}

fn device_serves(d: &DeviceFacts, wanted: &Vec<String>) -> (r: bool)
    ensures
        r == serves_keys(*d, crate::text::views(wanted@)),
{
    if wanted.len() == 0 {
        return true;
    }
    let mut i: usize = 0;
    while i < d.keys.len()
        invariant
            wanted@.len() > 0,
            i <= d.keys@.len(),
            forall|j: int| 0 <= j < i ==> !crate::text::views(wanted@).contains(#[trigger] d.keys@[j]@),
        decreases d.keys@.len() - i,
    {
        let mut k: usize = 0;
        let mut hit = false;
        while k < wanted.len()
            invariant
                i < d.keys@.len(),
                k <= wanted@.len(),
                hit == exists|m: int| 0 <= m < k && wanted@[m]@ == d.keys@[i as int]@,
            decreases wanted@.len() - k,
        {
            if crate::text::seq_eq(wanted[k].as_str(), d.keys[i].as_str()) {
                hit = true;
            }
            k = k + 1;
        }
        proof {
            let wv = crate::text::views(wanted@);
            if hit {
                let m = choose|m: int| 0 <= m < wanted@.len() && wanted@[m]@ == d.keys@[i as int]@;
                assert(wv[m] == d.keys@[i as int]@);
            } else {
                assert forall|m: int| 0 <= m < wv.len() implies wv[m] != d.keys@[i as int]@ by {
                    assert(wv[m] == wanted@[m]@);
                }
            }
        }
        if hit {
            return true;
        }
        i = i + 1;
    }
    false
}

fn find_backend(bs: &Vec<BackendFacts>, kind: crate::streams::validation::BackendKind, need_handle: bool) -> (r: usize)
    ensures
        r == first_backend(bs@, kind, need_handle, 0),
{
    let mut i: usize = 0;
    while i < bs.len()
        invariant
            i <= bs@.len(),
            first_backend(bs@, kind, need_handle, 0) == first_backend(bs@, kind, need_handle, i as int),
        decreases bs@.len() - i,
    {
        if bs[i].kind == kind && (!need_handle || bs[i].handle_matches) {
            return i;
        }
        i = i + 1;
    }
    i
}

pub fn find_matching_backend(
    devices: &Vec<DeviceFacts>,
    kind: crate::streams::validation::BackendKind,
    device_keys: &Vec<String>,
) -> (r: Option<(usize, usize)>)
    ensures
        match r {
            Some((d, b)) => matching_backend(devices@, kind, crate::text::views(device_keys@)) == Some((d as int, b as int)),
            None => matching_backend(devices@, kind, crate::text::views(device_keys@)) is None,
        },
{
    let ghost wanted = crate::text::views(device_keys@);
    let mut d: usize = 0;
    while d < devices.len() && !device_serves(&devices[d], device_keys)
        invariant
            wanted == crate::text::views(device_keys@),
            d <= devices@.len(),
            first_device(devices@, wanted, 0) == first_device(devices@, wanted, d as int),
        decreases devices@.len() - d,
    {
        d = d + 1;
    }
    if d >= devices.len() {
        return None;
    }
    let exact = find_backend(&devices[d].backends, kind, true);
    let b = if exact < devices[d].backends.len() {
        exact
    } else {
        find_backend(&devices[d].backends, kind, false)
    };
    if b < devices[d].backends.len() {
        Some((d, b))
    } else {
        None
    }
}

/// A benchmarked capture runs at the target rate: as a target frame rate
/// on libcamera, as a frame interval of 1/fps elsewhere (none for 0).
pub fn bench_capture_rate(kind: crate::streams::validation::BackendKind, target_fps: u32) -> (r: (Option<u32>, Option<u32>))
    ensures
        kind == crate::streams::validation::BackendKind::Libcamera ==> r == (Some(target_fps), None::<u32>),
        kind != crate::streams::validation::BackendKind::Libcamera ==> r == (None::<u32>, if target_fps == 0 {
            None::<u32>
        } else {
            Some(target_fps)
        }),
{
    match kind {
        crate::streams::validation::BackendKind::Libcamera => (Some(target_fps), None),
        _ => (None, if target_fps == 0 {
            None
        } else {
            Some(target_fps)
        }),
    }
}

/// The warning when a stream stopped for a benchmark does not restart.
pub fn restore_warning(reason: &str) -> (r: String)
    ensures
        r@ == "failed to restore stream: "@ + reason@,
{
    let mut out = owned("failed to restore stream: ");
    out.append(reason);
    out
}

// ---------------------------------------------------------------------------
// The codec implementations a benchmark tries.

/// Strictly increasing by code points: sorted, each once.
pub open spec fn strictly_sorted(v: Seq<Seq<char>>) -> bool {
    forall|i: int, j: int| 0 <= i < j < v.len() ==> crate::streams::edits::lex_lt(#[trigger] v[i], #[trigger] v[j])
}

/// Adds a name to a sorted list of distinct names, in its place.
pub fn insert_sorted_name(v: &mut Vec<String>, name: String)
    requires
        strictly_sorted(crate::text::views(old(v)@)),
    ensures
        strictly_sorted(crate::text::views(final(v)@)),
        crate::text::views(final(v)@).to_set() == crate::text::views(old(v)@).to_set().insert(name@),
{
    let ghost before = crate::text::views(v@);
    let mut i: usize = 0;
    while i < v.len() && crate::streams::edits::str_less(v[i].as_str(), name.as_str())
        invariant
            before == crate::text::views(v@),
            i <= v@.len(),
            forall|k: int| 0 <= k < i ==> crate::streams::edits::lex_lt(#[trigger] before[k], name@),
        decreases v@.len() - i,
    {
        assert(before[i as int] == v@[i as int]@);
        i = i + 1;
    }
    if i < v.len() && crate::text::seq_eq(v[i].as_str(), name.as_str()) {
        assert(before[i as int] == name@);
        assert(before.to_set().insert(name@) =~= before.to_set());
        return;
    }
    proof {
        if i < before.len() {
            assert(before[i as int] == v@[i as int]@);
            assert(!crate::streams::edits::lex_lt(before[i as int], name@));
            assert(before[i as int] != name@);
            crate::streams::edits::lemma_lex_total(before[i as int], name@);
            assert(crate::streams::edits::lex_lt(name@, before[i as int]));
        }
    }
    v.insert(i, name);
    let ghost after = crate::text::views(v@);
    assert(after =~= before.insert(i as int, name@));
    proof {
        assert forall|a: int, b: int| 0 <= a < b < after.len() implies crate::streams::edits::lex_lt(
            #[trigger] after[a],
            #[trigger] after[b],
        ) by {
            if b < i {
            } else if a < i && b == i {
            } else if a < i && b > i {
                assert(after[b] == before[b - 1]);
                if b - 1 == i as int {
                    crate::streams::edits::lemma_lex_lt_transitive(before[a], name@, before[i as int], 0);
                } else {
                    crate::streams::edits::lemma_lex_lt_transitive(before[a], name@, before[i as int], 0);
                    crate::streams::edits::lemma_lex_lt_transitive(before[a], before[i as int], before[b - 1], 0);
                }
            } else if a == i && b > i {
                assert(after[b] == before[b - 1]);
                if b - 1 > i {
                    crate::streams::edits::lemma_lex_lt_transitive(name@, before[i as int], before[b - 1], 0);
                }
            } else {
                assert(after[a] == before[a - 1]);
                assert(after[b] == before[b - 1]);
            }
        }
        assert forall|x: Seq<char>| after.to_set().contains(x) <==> before.to_set().insert(name@).contains(x) by {
            if after.contains(x) {
                let k = choose|k: int| 0 <= k < after.len() && after[k] == x;
                if k < i {
                    assert(before[k] == x);
                } else if k > i {
                    assert(before[k - 1] == x);
                }
            }
            if before.contains(x) {
                let k = choose|k: int| 0 <= k < before.len() && before[k] == x;
                if k < i {
                    assert(after[k] == x);
                } else {
                    assert(after[k + 1] == x);
                }
            }
            if x == name@ {
                assert(after[i as int] == x);
            }
        }
        assert(after.to_set() =~= before.to_set().insert(name@));
    }
}

/// A codec the registry offers: whether it decodes, what it reads, and its
/// implementation's name.
#[derive(Debug, Clone, PartialEq, Eq)]
pub struct CodecDesc {
    pub decoder: bool,
    pub input: String,
    pub impl_name: String,
}

/// The implementations of one kind for one input format, sorted, each
/// once.
#[derive(Debug, Clone, PartialEq, Eq)]
pub struct CodecImplGroup {
    pub input: String,
    pub impls: Vec<String>,
}

/// The implementation names of the codecs of a kind that read `input`.
pub open spec fn impls_for(descs: Seq<CodecDesc>, decoder: bool, input: Seq<char>) -> Set<Seq<char>> {
    Set::new(|n: Seq<char>| exists|k: int| 0 <= k < descs.len() && (#[trigger] descs[k]).decoder == decoder && descs[k].input@ == input && descs[k].impl_name@ == n)
}

/// The input formats that codecs of a kind read.
pub open spec fn inputs_for(descs: Seq<CodecDesc>, decoder: bool) -> Set<Seq<char>> {
    Set::new(|i: Seq<char>| exists|k: int| 0 <= k < descs.len() && (#[trigger] descs[k]).decoder == decoder && descs[k].input@ == i)
}

pub open spec fn groups_fit(gs: Seq<CodecImplGroup>, descs: Seq<CodecDesc>, decoder: bool) -> bool {
    &&& forall|a: int, b: int| 0 <= a < b < gs.len() ==> (#[trigger] gs[a]).input@ != (#[trigger] gs[b]).input@
    &&& forall|g: int| 0 <= g < gs.len() ==> inputs_for(descs, decoder).contains(#[trigger] gs[g].input@)
    &&& forall|i: Seq<char>| #[trigger] inputs_for(descs, decoder).contains(i) ==> exists|g: int| 0 <= g < gs.len() && (#[trigger] gs[g]).input@ == i
    &&& forall|g: int| 0 <= g < gs.len() ==> strictly_sorted(crate::text::views((#[trigger] gs[g]).impls@))
    &&& forall|g: int| 0 <= g < gs.len() ==> crate::text::views((#[trigger] gs[g]).impls@).to_set() == impls_for(descs, decoder, gs[g].input@)
}

/// The codec implementations of a kind by input format: one group per
/// format that a codec of the kind reads, its names sorted and distinct.
pub fn codec_impls_by_input(descs: &Vec<CodecDesc>, decoder: bool) -> (r: Vec<CodecImplGroup>)
    ensures
        groups_fit(r@, descs@, decoder),
{
    let mut groups: Vec<CodecImplGroup> = Vec::new();
    let mut k: usize = 0;
    while k < descs.len()
        invariant
            k <= descs@.len(),
            groups_fit(groups@, descs@.subrange(0, k as int), decoder),
        decreases descs@.len() - k,
    {
        let ghost pre = descs@.subrange(0, k as int);
        let ghost post = descs@.subrange(0, k + 1);
        let d = &descs[k];
        assert(post[k as int] == *d);
        assert forall|m: int| 0 <= m < k implies post[m] == pre[m] by {}
        proof {
            assert forall|dec: bool, inp: Seq<char>, n: Seq<char>| impls_for(pre, dec, inp).contains(n) implies impls_for(post, dec, inp).contains(n) by {
                let m = choose|m: int| 0 <= m < pre.len() && (#[trigger] pre[m]).decoder == dec && pre[m].input@ == inp && pre[m].impl_name@ == n;
                assert(post[m] == pre[m]);
            }
            assert forall|dec: bool, inp: Seq<char>| inputs_for(pre, dec).contains(inp) implies inputs_for(post, dec).contains(inp) by {
                let m = choose|m: int| 0 <= m < pre.len() && (#[trigger] pre[m]).decoder == dec && pre[m].input@ == inp;
                assert(post[m] == pre[m]);
            }
        }
        if d.decoder != decoder {
            proof {
                assert forall|inp: Seq<char>, n: Seq<char>| impls_for(post, decoder, inp).contains(n) implies impls_for(pre, decoder, inp).contains(n) by {
                    let m = choose|m: int| 0 <= m < post.len() && (#[trigger] post[m]).decoder == decoder && post[m].input@ == inp && post[m].impl_name@ == n;
                    assert(m != k as int);
                    assert(pre[m] == post[m]);
                }
                assert forall|inp: Seq<char>| inputs_for(post, decoder).contains(inp) implies inputs_for(pre, decoder).contains(inp) by {
                    let m = choose|m: int| 0 <= m < post.len() && (#[trigger] post[m]).decoder == decoder && post[m].input@ == inp;
                    assert(m != k as int);
                    assert(pre[m] == post[m]);
                }
                assert forall|inp: Seq<char>| impls_for(post, decoder, inp) == impls_for(pre, decoder, inp) by {
                    assert(impls_for(post, decoder, inp) =~= impls_for(pre, decoder, inp));
                }
                assert(inputs_for(post, decoder) =~= inputs_for(pre, decoder));
            }
            k = k + 1;
            continue;
        }
        let mut g: usize = 0;
        while g < groups.len() && !crate::text::seq_eq(groups[g].input.as_str(), d.input.as_str())
            invariant
                g <= groups@.len(),
                forall|h: int| 0 <= h < g ==> (#[trigger] groups@[h]).input@ != d.input@,
            decreases groups@.len() - g,
        {
            g = g + 1;
        }
        proof {
            assert forall|inp: Seq<char>, n: Seq<char>| #[trigger] impls_for(post, decoder, inp).contains(n) implies impls_for(pre, decoder, inp).contains(n) || (inp == d.input@ && n == d.impl_name@) by {
                let m = choose|m: int| 0 <= m < post.len() && (#[trigger] post[m]).decoder == decoder && post[m].input@ == inp && post[m].impl_name@ == n;
                if m != k as int {
                    assert(pre[m] == post[m]);
                }
            }
            assert forall|inp: Seq<char>| #[trigger] inputs_for(post, decoder).contains(inp) implies inputs_for(pre, decoder).contains(inp) || inp == d.input@ by {
                let m = choose|m: int| 0 <= m < post.len() && (#[trigger] post[m]).decoder == decoder && post[m].input@ == inp;
                if m != k as int {
                    assert(pre[m] == post[m]);
                }
            }
            assert(impls_for(post, decoder, d.input@).contains(d.impl_name@));
            assert(inputs_for(post, decoder).contains(d.input@));
        }
        if g < groups.len() {
            let ghost old_groups = groups@;
            let mut group = groups.remove(g);
            assert(group == old_groups[g as int]);
            insert_sorted_name(&mut group.impls, d.impl_name.clone());
            groups.insert(g, group);
            proof {
                assert(groups@ =~= old_groups.update(g as int, groups@[g as int]));
                assert forall|h: int| 0 <= h < groups@.len() implies crate::text::views((#[trigger] groups@[h]).impls@).to_set() == impls_for(post, decoder, groups@[h].input@) by {
                    if h == g as int {
                        assert(crate::text::views(groups@[h].impls@).to_set() =~= impls_for(post, decoder, groups@[h].input@));
                    } else {
                        assert(groups@[h] == old_groups[h]);
                        assert(old_groups[h].input@ != d.input@);
                        assert(crate::text::views(groups@[h].impls@).to_set() =~= impls_for(post, decoder, groups@[h].input@));
                    }
                }
                assert forall|i: Seq<char>| #[trigger] inputs_for(post, decoder).contains(i) implies exists|h: int| 0 <= h < groups@.len() && (#[trigger] groups@[h]).input@ == i by {
                    if i == d.input@ {
                        assert(groups@[g as int].input@ == i);
                    } else {
                        let h = choose|h: int| 0 <= h < old_groups.len() && (#[trigger] old_groups[h]).input@ == i;
                        assert(groups@[h].input@ == i);
                    }
                }
            }
        } else {
            let mut impls: Vec<String> = Vec::new();
            impls.push(d.impl_name.clone());
            let ghost old_groups = groups@;
            let ng = CodecImplGroup { input: d.input.clone(), impls };
            assert(crate::text::views(ng.impls@) =~= seq![d.impl_name@]);
            groups.push(ng);
            proof {
                assert(crate::text::views(ng.impls@).to_set() =~= impls_for(post, decoder, d.input@)) by {
                    assert forall|n: Seq<char>| impls_for(post, decoder, d.input@).contains(n) implies n == d.impl_name@ by {
                        if !impls_for(pre, decoder, d.input@).contains(n) {
                        } else {
                            let m = choose|m: int| 0 <= m < pre.len() && (#[trigger] pre[m]).decoder == decoder && pre[m].input@ == d.input@ && pre[m].impl_name@ == n;
                            assert(inputs_for(pre, decoder).contains(d.input@));
                            let h = choose|h: int| 0 <= h < old_groups.len() && (#[trigger] old_groups[h]).input@ == d.input@;
                            assert(false);
                        }
                    }
                    assert forall|n: Seq<char>| crate::text::views(ng.impls@).to_set().contains(n) <==> impls_for(post, decoder, d.input@).contains(n) by {
                        if n == d.impl_name@ {
                            assert(crate::text::views(ng.impls@)[0] == n);
                        }
                    }
                }
                assert forall|h: int| 0 <= h < groups@.len() implies crate::text::views((#[trigger] groups@[h]).impls@).to_set() == impls_for(post, decoder, groups@[h].input@) by {
                    if h < old_groups.len() {
                        assert(groups@[h] == old_groups[h]);
                        assert(old_groups[h].input@ != d.input@);
                        assert(crate::text::views(groups@[h].impls@).to_set() =~= impls_for(post, decoder, groups@[h].input@));
                    }
                }
                assert forall|i: Seq<char>| #[trigger] inputs_for(post, decoder).contains(i) implies exists|h: int| 0 <= h < groups@.len() && (#[trigger] groups@[h]).input@ == i by {
                    if i == d.input@ {
                        assert(groups@[old_groups.len() as int].input@ == i);
                    } else {
                        let h = choose|h: int| 0 <= h < old_groups.len() && (#[trigger] old_groups[h]).input@ == i;
                        assert(groups@[h].input@ == i);
                    }
                }
                assert forall|h: int| 0 <= h < groups@.len() implies strictly_sorted(crate::text::views((#[trigger] groups@[h]).impls@)) by {
                    if h < old_groups.len() {
                        assert(groups@[h] == old_groups[h]);
                    }
                }
            }
        }
        k = k + 1;
    }
    assert(descs@.subrange(0, descs@.len() as int) =~= descs@);
    groups
}

} // verus!
