use helios_api::streams::bindings::{
    pipeline_lookups, raw_output_fields, validate_binding_entries, validate_lookup_outcomes,
    validate_raw_output_verdicts, LookupOutcome, PipelineLookup,
};
use helios_api::streams::manifest::{
    LayoutSlot, PipelineBinding, PipelineConfig, PipelineLayout, PipelineWire, WireEndpoint,
};

const RAW: u128 = 0x0000_0000_0000_4000_8000_0000_0000_0001;
const A: u128 = 0x0000_0000_0000_4000_8000_0000_0000_00aa;
const B: u128 = 0x0000_0000_0000_4000_8000_0000_0000_00bb;

fn binding(id: u128, output: Option<&str>, inline: bool) -> PipelineBinding {
    PipelineBinding { pipeline_id: id, pipeline_output: output.map(|o| o.to_string()), has_inline_graph: inline }
}

fn config(pipelines: Vec<PipelineBinding>) -> PipelineConfig {
    PipelineConfig {
        pipeline_enabled: true,
        pipelines,
        active_pipeline_id: None,
        active_pipeline_output: None,
        pipeline_layout: None,
        pipeline_wires: Vec::new(),
    }
}

#[test]
fn inline_graphs_and_duplicate_bindings_are_reported() {
    let cfg = config(vec![binding(A, None, false), binding(B, None, true), binding(A, None, true)]);
    let mut issues = Vec::new();
    validate_binding_entries(&cfg, &mut issues);
    let got: Vec<(String, &str)> = issues.iter().map(|i| (i.path.clone(), i.code)).collect();
    assert_eq!(
        got,
        vec![
            ("/pipelines/1/pipelineGraph".to_string(), "inline_pipeline_graph_forbidden"),
            ("/pipelines/2/pipelineGraph".to_string(), "inline_pipeline_graph_forbidden"),
            ("/pipelines/2/pipelineId".to_string(), "duplicate_pipeline_binding"),
        ]
    );
    assert_eq!(issues[2].message, "duplicate pipeline binding for pipeline id 00000000-0000-4000-8000-0000000000aa");
}

#[test]
fn lookups_skip_raw_and_repeats() {
    let cfg = config(vec![binding(RAW, None, false), binding(A, None, false), binding(A, None, false), binding(B, None, false)]);
    assert_eq!(
        pipeline_lookups(&cfg, RAW),
        vec![PipelineLookup { index: 1, pipeline_id: A }, PipelineLookup { index: 3, pipeline_id: B }]
    );
}

#[test]
fn lookup_outcomes_become_issues() {
    let ls = vec![
        PipelineLookup { index: 0, pipeline_id: A },
        PipelineLookup { index: 2, pipeline_id: B },
        PipelineLookup { index: 4, pipeline_id: A },
    ];
    let os = vec![LookupOutcome::Found, LookupOutcome::NotFound, LookupOutcome::Failed { error: "disk error".to_string() }];
    let mut issues = Vec::new();
    validate_lookup_outcomes(&ls, &os, &mut issues);
    assert_eq!(issues.len(), 2);
    assert_eq!(issues[0].path, "/pipelines/2/pipelineId");
    assert_eq!(issues[0].code, "pipeline_not_found");
    assert_eq!(issues[0].message, "pipeline 00000000-0000-4000-8000-0000000000bb is not persisted under /pipelines");
    assert_eq!(issues[1].path, "/pipelines/4/pipelineId");
    assert_eq!(issues[1].code, "pipeline_lookup_failed");
    assert_eq!(issues[1].message, "failed to resolve pipeline 00000000-0000-4000-8000-0000000000aa: disk error");
}

#[test]
fn raw_output_fields_list_every_raw_selector() {
    let mut cfg = config(vec![binding(RAW, Some("raw"), false), binding(A, Some("x"), false)]);
    cfg.active_pipeline_id = Some(RAW);
    cfg.active_pipeline_output = Some("undistorted".to_string());
    cfg.pipeline_layout = Some(PipelineLayout {
        rows: 1,
        columns: 2,
        slots: vec![
            LayoutSlot { row: 0, column: 0, pipeline_id: Some(A), output_key: None },
            LayoutSlot { row: 0, column: 1, pipeline_id: Some(RAW), output_key: Some("bad".to_string()) },
        ],
    });
    cfg.pipeline_wires = vec![PipelineWire {
        from: WireEndpoint { pipeline_id: RAW, output_key: Some("raw".to_string()), port: None },
        to: WireEndpoint { pipeline_id: A, output_key: None, port: Some("in".to_string()) },
    }];
    let fields = raw_output_fields(&cfg, RAW);
    let got: Vec<(String, &str, Option<String>)> =
        fields.iter().map(|f| (f.path.clone(), f.label, f.value.clone())).collect();
    assert_eq!(
        got,
        vec![
            ("/activePipelineOutput".to_string(), "active pipeline output", Some("undistorted".to_string())),
            ("/pipelines/0/pipelineOutput".to_string(), "pipeline output", Some("raw".to_string())),
            ("/pipelineLayout/slots/1/outputKey".to_string(), "layout output", Some("bad".to_string())),
            ("/pipelineWires/0/from/outputKey".to_string(), "wire output selector", Some("raw".to_string())),
            ("/pipelineWires/0/from/port".to_string(), "wire output port", None),
        ]
    );
    let verdicts = vec![None, None, Some("unsupported RAW output `bad`".to_string()), None, None];
    let mut issues = Vec::new();
    validate_raw_output_verdicts(&fields, &verdicts, &mut issues);
    assert_eq!(issues.len(), 1);
    assert_eq!(issues[0].path, "/pipelineLayout/slots/1/outputKey");
    assert_eq!(issues[0].code, "unsupported_raw_output");
    assert_eq!(issues[0].message, "layout output is invalid: unsupported RAW output `bad`");
}
