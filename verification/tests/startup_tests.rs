use helios_api::startup::{
    corrupt_state_files, decode_failure_message, is_json_document, marker_status, pipeline_document_count,
    pipelines_to_seed, preset_decode_order, preset_graph_source, preset_pipeline_name, reconcile_report,
    startup_marker_name, startup_preset_action, streams_to_seed, template_load_error, GraphSource,
    PipelinePresetFacts, PresetAction, PresetDecodeOrder, StartupReconcileReport, StateEntry, StreamPresetFacts,
    StreamSeed, CURRENT_STARTUP_PRESET_SCHEMA_VERSION,
};

fn entry(name: &str, is_file: bool, len: u64) -> StateEntry {
    StateEntry { name: name.to_string(), is_file, len }
}

#[test]
fn corrupt_state_is_empty_json_files_only() {
    let pipelines = vec![entry("empty.json", true, 0), entry("keep.txt", true, 0), entry("nested", false, 0)];
    assert_eq!(corrupt_state_files(&pipelines), vec![0]);
    let streams = vec![entry("empty.json", true, 0), entry("good.json", true, 11), entry("stream.toml", true, 0)];
    assert_eq!(corrupt_state_files(&streams), vec![0]);
    assert!(corrupt_state_files(&vec![entry(".json", true, 0), entry("a.JSON", true, 0)]).is_empty());
}

#[test]
fn reconcile_report_clears_marker_after_pruning() {
    let pruned = reconcile_report(false, 1, 1);
    assert_eq!(
        pruned,
        StartupReconcileReport {
            pipelines_pruned: 1,
            streams_pruned: 1,
            zero_byte_marker_removed: false,
            startup_marker_cleared_after_prune: true,
        }
    );
    assert!(pruned.changed());
    let marker_only = reconcile_report(true, 0, 0);
    assert!(!marker_only.startup_marker_cleared_after_prune);
    assert!(marker_only.changed());
    let clean = reconcile_report(false, 0, 0);
    assert!(!clean.changed());
    assert!(!clean.pruned_any_state());
}

#[test]
fn pipeline_documents_are_json_files() {
    let entries = vec![entry("a.json", true, 3), entry("b.json", false, 0), entry("c.txt", true, 1), entry("d.json", true, 0)];
    assert_eq!(pipeline_document_count(&entries), 2);
    assert!(is_json_document(&entry("x.json", true, 0)));
}

#[test]
fn preset_decode_order_follows_extension() {
    assert_eq!(startup_marker_name(), ".startup-preset-applied-v1.json");
    assert_eq!(CURRENT_STARTUP_PRESET_SCHEMA_VERSION, 1);
    assert_eq!(preset_decode_order("/var/lib/helios/startup.toml"), PresetDecodeOrder::TomlFirst);
    assert_eq!(preset_decode_order("/etc/startup.JSON"), PresetDecodeOrder::JsonFirst);
    assert_eq!(preset_decode_order("/etc/startup"), PresetDecodeOrder::Unknown);
    assert_eq!(preset_decode_order("/etc/.toml"), PresetDecodeOrder::Unknown);
    assert_eq!(
        decode_failure_message(PresetDecodeOrder::TomlFirst, "t", "j"),
        "toml parse error: t; json parse error: j"
    );
    assert_eq!(
        decode_failure_message(PresetDecodeOrder::JsonFirst, "j", "t"),
        "json parse error: j; toml parse error: t"
    );
    assert_eq!(decode_failure_message(PresetDecodeOrder::Unknown, "j", "t"), "t");
}

#[test]
fn preset_action_rules() {
    assert_eq!(startup_preset_action(true, true, false, 0, 0), PresetAction::Nothing);
    assert_eq!(startup_preset_action(false, false, false, 0, 0), PresetAction::Nothing);
    assert_eq!(startup_preset_action(false, true, true, 5, 5), PresetAction::MarkEmpty);
    assert_eq!(startup_preset_action(false, true, false, 1, 0), PresetAction::MarkExistingState);
    assert_eq!(startup_preset_action(false, true, false, 0, 0), PresetAction::Apply);
    assert_eq!(marker_status(PresetAction::MarkEmpty), Some("skipped-empty"));
    assert_eq!(marker_status(PresetAction::MarkExistingState), Some("skipped-existing-state"));
    assert_eq!(marker_status(PresetAction::Apply), Some("applied"));
    assert_eq!(marker_status(PresetAction::Nothing), None);
}

#[test]
fn preset_pipelines_seed_first_of_each_id() {
    assert_eq!(pipelines_to_seed(&vec![7, 8, 7, 9, 8]), vec![0, 1, 3]);
    let p = |name: Option<&str>, graph, template: Option<&str>| PipelinePresetFacts {
        id: 1,
        name: name.map(str::to_string),
        has_graph: graph,
        template_id: template.map(str::to_string),
    };
    assert_eq!(preset_pipeline_name(&p(Some("  Default ArUco "), false, None)).as_deref(), Some("Default ArUco"));
    assert_eq!(preset_pipeline_name(&p(Some("  "), false, Some(" daedalus_aruco"))).as_deref(), Some("daedalus_aruco"));
    assert_eq!(preset_pipeline_name(&p(None, false, None)), None);
    assert_eq!(preset_graph_source(&p(None, true, Some("t"))), Ok(GraphSource::Inline));
    assert_eq!(
        preset_graph_source(&p(None, false, Some(" t "))),
        Ok(GraphSource::Template { template_id: "t".to_string() })
    );
    assert_eq!(
        preset_graph_source(&p(None, false, Some(" "))),
        Err("pipeline preset requires either graph or templateId".to_string())
    );
    assert_eq!(template_load_error("t", "missing"), "failed to load template t: missing");
}

#[test]
fn preset_streams_seed_non_blank_camera_ids() {
    let s = |camera: &str, stream_id, manifest_id| StreamPresetFacts { camera_id: camera.to_string(), stream_id, manifest_id };
    let presets = vec![s(" ov9782 ", None, Some(1)), s("  ", Some(2), None), s("ov9782", Some(3), Some(4)), s("b", None, None)];
    assert_eq!(
        streams_to_seed(&presets),
        vec![
            StreamSeed { index: 0, camera_id: "ov9782".to_string(), stream_id: Some(1), duplicate: false },
            StreamSeed { index: 2, camera_id: "ov9782".to_string(), stream_id: Some(3), duplicate: true },
            StreamSeed { index: 3, camera_id: "b".to_string(), stream_id: None, duplicate: false },
        ]
    );
}
