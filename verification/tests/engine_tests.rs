use helios_api::streams::host_inputs::apply_pipeline_host_inputs_update;
use helios_api::streams::manifest::{LayoutSlot, PipelineConfig, PipelineLayout};
use helios_api::streams::ports::{pipeline_shows_raw, shown_pipeline_outputs, PortPick};
use helios_api::streams::profiling::{smoke_step, smoke_timeout_ms, NodeReport, SmokeStep};
use helios_api::streams::starting::{list_streams_timeout_ms, wait_step, WaitDecision, WaitEvent, WaitGoal};

const RAW: u128 = 1;
const A: u128 = 0xa;

fn names(ns: &[&str]) -> Vec<String> {
    ns.iter().map(|n| n.to_string()).collect()
}

fn picks(ps: &[(&str, usize)]) -> Vec<PortPick> {
    ps.iter().map(|(n, f)| PortPick { name: n.to_string(), from: *f }).collect()
}

fn config(active: Option<u128>, slots: Option<Vec<Option<u128>>>) -> PipelineConfig {
    PipelineConfig {
        pipeline_enabled: true,
        pipelines: Vec::new(),
        active_pipeline_id: active,
        active_pipeline_output: None,
        pipeline_layout: slots.map(|ids| PipelineLayout {
            rows: 1,
            columns: ids.len() as u8,
            slots: ids
                .into_iter()
                .enumerate()
                .map(|(i, id)| LayoutSlot { row: 0, column: i as u8, pipeline_id: id, output_key: None })
                .collect(),
        }),
        pipeline_wires: Vec::new(),
    }
}

#[test]
fn raw_is_shown_when_active_or_in_a_slot() {
    assert!(pipeline_shows_raw(&config(Some(RAW), None), RAW));
    assert!(pipeline_shows_raw(&config(Some(A), Some(vec![None, Some(RAW)])), RAW));
    assert!(!pipeline_shows_raw(&config(Some(A), Some(vec![Some(A), None])), RAW));
    assert!(!pipeline_shows_raw(&config(None, None), RAW));
}

#[test]
fn raw_streams_list_an_undistorted_port() {
    assert_eq!(
        shown_pipeline_outputs(&names(&["frame", "RAW", "det"]), true),
        picks(&[("RAW", 1), ("det", 2), ("undistorted", 1)])
    );
    // Without the RAW pipeline shown, only the alias goes.
    assert_eq!(shown_pipeline_outputs(&names(&["frame", "raw", "det"]), false), picks(&[("raw", 1), ("det", 2)]));
    // An existing undistorted port is not doubled.
    assert_eq!(
        shown_pipeline_outputs(&names(&["raw", "Undistorted"]), true),
        picks(&[("raw", 0), ("Undistorted", 1)])
    );
    // Without a canonical RAW port the alias stays.
    assert_eq!(shown_pipeline_outputs(&names(&["frame", "det"]), true), picks(&[("frame", 0), ("det", 1)]));
    assert!(shown_pipeline_outputs(&Vec::new(), true).is_empty());
}

#[test]
fn list_timeout_reads_the_setting_within_bounds() {
    assert_eq!(list_streams_timeout_ms(None, false), 1500);
    assert_eq!(list_streams_timeout_ms(None, true), 5000);
    assert_eq!(list_streams_timeout_ms(Some(" 2500 "), false), 2500);
    assert_eq!(list_streams_timeout_ms(Some("fast"), false), 1500);
    assert_eq!(list_streams_timeout_ms(Some("5"), true), 100);
    assert_eq!(list_streams_timeout_ms(Some("99999"), false), 20000);
}

#[test]
fn waits_end_on_the_right_signal() {
    assert_eq!(wait_step(WaitGoal::Started, A, WaitEvent::DeadlinePassed), WaitDecision::Done { reached: false });
    assert_eq!(wait_step(WaitGoal::Started, A, WaitEvent::Listed { present: true }), WaitDecision::Done { reached: true });
    assert_eq!(wait_step(WaitGoal::Started, A, WaitEvent::Listed { present: false }), WaitDecision::Continue);
    assert_eq!(wait_step(WaitGoal::Gone, A, WaitEvent::Listed { present: false }), WaitDecision::Done { reached: true });
    assert_eq!(wait_step(WaitGoal::Gone, A, WaitEvent::Listed { present: true }), WaitDecision::Continue);
    assert_eq!(wait_step(WaitGoal::Started, A, WaitEvent::StreamStarted { stream_id: A }), WaitDecision::Done { reached: true });
    assert_eq!(wait_step(WaitGoal::Started, A, WaitEvent::StreamStarted { stream_id: RAW }), WaitDecision::Continue);
    assert_eq!(wait_step(WaitGoal::Started, A, WaitEvent::StreamStopped { stream_id: A }), WaitDecision::Continue);
    assert_eq!(wait_step(WaitGoal::Gone, A, WaitEvent::StreamStopped { stream_id: A }), WaitDecision::Done { reached: true });
    assert_eq!(wait_step(WaitGoal::Gone, A, WaitEvent::Other), WaitDecision::Continue);
}

fn node(id: &str, label: Option<&str>, kind: Option<&str>, err: Option<&str>) -> NodeReport {
    NodeReport {
        id: id.to_string(),
        label: label.map(|s| s.to_string()),
        node_type: kind.map(|s| s.to_string()),
        last_error: err.map(|s| s.to_string()),
    }
}

#[test]
fn smoke_tests_wait_for_errors_or_the_deadline() {
    assert_eq!(smoke_timeout_ms(None), 500);
    assert_eq!(smoke_timeout_ms(Some(0)), 0);
    assert_eq!(smoke_timeout_ms(Some(9000)), 5000);
    let healthy = vec![node("n1", None, None, None)];
    assert_eq!(smoke_step(&healthy, false), SmokeStep::LookAgain);
    assert_eq!(smoke_step(&healthy, true), SmokeStep::Answer { ok: true, errors: Vec::new() });
    let failing = vec![
        node("n1", Some("Detector"), Some("yolo"), Some("model missing")),
        node("n2", None, Some("resize"), None),
        node("n3", None, Some("crop"), Some("bad roi")),
        node("n4", None, None, Some("panic")),
    ];
    assert_eq!(
        smoke_step(&failing, false),
        SmokeStep::Answer {
            ok: false,
            errors: vec!["Detector: model missing".to_string(), "crop: bad roi".to_string(), "n4: panic".to_string()],
        }
    );
    assert_eq!(smoke_step(&Vec::new(), false), SmokeStep::LookAgain);
}

#[test]
fn host_input_updates_set_and_clear_normalized_keys() {
    let mut entries: Vec<(String, i32)> = vec![("crop".to_string(), 1), ("ordering".to_string(), 2)];
    let updates: Vec<(String, Option<i32>)> = vec![
        (" Crosshair ".to_string(), Some(3)),
        ("   ".to_string(), Some(9)),
        ("ORDERING".to_string(), None),
        ("crop".to_string(), Some(10)),
        ("zoom".to_string(), None),
        ("aim".to_string(), Some(0)),
    ];
    apply_pipeline_host_inputs_update(&mut entries, updates);
    assert_eq!(
        entries,
        vec![("aim".to_string(), 0), ("crop".to_string(), 10), ("crosshair".to_string(), 3)]
    );
    let mut empty: Vec<(String, &str)> = Vec::new();
    apply_pipeline_host_inputs_update(&mut empty, vec![("b".to_string(), Some("x")), ("a".to_string(), Some("y")), ("B".to_string(), Some("z"))]);
    assert_eq!(empty, vec![("a".to_string(), "y"), ("b".to_string(), "z")]);
}
