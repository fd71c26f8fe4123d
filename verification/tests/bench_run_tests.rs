use helios_api::streams::bench_run::{bench_step, codec_trial_gate, BenchAction, BenchEvent, BenchLoop, BenchPlan};

fn plan(mode_count: usize, restore_existing: bool) -> BenchPlan {
    BenchPlan { mode_count, restore_existing }
}

#[test]
fn bench_run_measures_each_mode_and_restores() {
    let p = plan(1, true);
    let s = bench_step(BenchLoop::NextMode { next: 0 }, &BenchEvent::Proceed, p, false, "NV12 640x480");
    assert_eq!(s.next, BenchLoop::Starting { index: 0 });
    assert_eq!(s.action, BenchAction::StartStream { mode_index: 0 });
    let s = bench_step(s.next, &BenchEvent::StreamStarted(7), p, false, "NV12 640x480");
    assert_eq!(s.action, BenchAction::SampleBaseline { stream_id: 7 });
    let s = bench_step(s.next, &BenchEvent::BaselineTaken, p, false, "NV12 640x480");
    assert_eq!(s.action, BenchAction::RunCodecTrials { mode_index: 0, stream_id: 7 });
    let s = bench_step(s.next, &BenchEvent::CodecTrialsDone, p, false, "NV12 640x480");
    assert_eq!(s.action, BenchAction::StopStream { stream_id: 7 });
    let s = bench_step(s.next, &BenchEvent::StreamStopped, p, false, "NV12 640x480");
    assert_eq!(s.next, BenchLoop::NextMode { next: 1 });
    assert_eq!(s.action, BenchAction::Continue);
    let s = bench_step(s.next, &BenchEvent::Proceed, p, false, "");
    assert_eq!(s.next, BenchLoop::Restoring);
    assert_eq!(s.action, BenchAction::RestoreStreams);
    assert!(s.warning.is_none());
    let s = bench_step(s.next, &BenchEvent::Restored, p, false, "");
    assert_eq!(s.next, BenchLoop::Finished);
    assert_eq!(s.action, BenchAction::Complete);
}

#[test]
fn bench_run_skips_modes_that_fail() {
    let p = plan(2, false);
    let s = bench_step(BenchLoop::Starting { index: 0 }, &BenchEvent::StartFailed("busy".to_string()), p, false, "MJPG 1280x720");
    assert_eq!(s.next, BenchLoop::NextMode { next: 1 });
    assert_eq!(s.warning.as_deref(), Some("MJPG 1280x720: start failed: busy"));
    let s = bench_step(
        BenchLoop::Baseline { index: 1, stream_id: 9 },
        &BenchEvent::BaselineFailed("timeout".to_string()),
        p,
        false,
        "YUYV 320x240",
    );
    assert_eq!(s.next, BenchLoop::Stopping { index: 1, stream_id: 9 });
    assert_eq!(s.action, BenchAction::StopStream { stream_id: 9 });
    assert_eq!(s.warning.as_deref(), Some("YUYV 320x240: baseline metrics failed: timeout"));
    let s = bench_step(s.next, &BenchEvent::StreamStopped, p, false, "");
    let s = bench_step(s.next, &BenchEvent::Proceed, p, false, "");
    assert_eq!(s.next, BenchLoop::Finished);
    assert_eq!(s.action, BenchAction::Complete);
}

#[test]
fn bench_run_stops_on_cancel() {
    let p = plan(3, false);
    let s = bench_step(BenchLoop::NextMode { next: 1 }, &BenchEvent::Proceed, p, true, "");
    assert_eq!(s.next, BenchLoop::Finished);
    assert_eq!(s.warning.as_deref(), Some("benchmark canceled"));
    assert_eq!(codec_trial_gate(true).as_deref(), Some("benchmark canceled"));
    assert_eq!(codec_trial_gate(false), None);
}

#[test]
fn bench_run_ignores_events_out_of_place() {
    let p = plan(2, false);
    let s = bench_step(BenchLoop::Codecs { index: 0, stream_id: 3 }, &BenchEvent::Restored, p, false, "");
    assert_eq!(s.next, BenchLoop::Codecs { index: 0, stream_id: 3 });
    assert_eq!(s.action, BenchAction::Ignore);
}
