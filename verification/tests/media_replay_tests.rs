use helios_api::streams::engine_reply::EngineErrorCode;
use helios_api::streams::manifest::ReservedPipelineIds;
use helios_api::streams::media_replay::{
    annexb_refusal, check_media_replay_request, check_replay_media_name, media_replay_pipeline,
    raw_annexb_format_hint, replay_alias_or, replay_fps, replay_source, replay_source_stream,
    select_stream_media, MediaEntry, MediaMetadataFacts, MediaReplayRequest, ReplaySource,
};

const STREAM: u128 = 0x1111_2222_3333_4444_5555_6666_7777_8888;
const OTHER: u128 = 0x9999_aaaa_bbbb_cccc_dddd_eeee_ffff_0000;

fn request() -> MediaReplayRequest {
    MediaReplayRequest { files: vec![], stream_id: None, kind: None, fps: None, loop_forever: None, alias: None }
}

fn entry(name: &str, stream: u128, kind: &str, at: Option<i64>) -> MediaEntry {
    MediaEntry {
        name: name.to_string(),
        is_file: true,
        size_bytes: 100,
        metadata: Some(MediaMetadataFacts {
            stream_id: Some(stream),
            kind: Some(kind.to_string()),
            captured_at_ms: at,
        }),
    }
}

#[test]
fn media_replay_request_within_limits_is_accepted() {
    let mut req = request();
    req.files = vec!["a.mp4".to_string(); 64];
    req.fps = Some(240);
    req.alias = Some(format!("  {}  ", "x".repeat(96)));
    assert!(check_media_replay_request(&req).is_ok());
}

#[test]
fn media_replay_request_with_too_many_files_is_refused() {
    let mut req = request();
    req.files = vec!["a.mp4".to_string(); 65];
    req.fps = Some(0);
    let e = check_media_replay_request(&req).unwrap_err();
    assert_eq!(e.status, 400);
    let body = e.body.unwrap();
    assert_eq!(body.engine_code, Some(EngineErrorCode::InvalidInput));
    assert_eq!(body.code, "invalid_input");
    assert_eq!(body.error, "too many files (max 64)");
}

#[test]
fn media_replay_request_with_fps_out_of_range_is_refused() {
    let mut req = request();
    req.fps = Some(241);
    let e = check_media_replay_request(&req).unwrap_err();
    assert_eq!(e.body.unwrap().error, "fps must be between 1 and 240");
    req.fps = Some(0);
    assert!(check_media_replay_request(&req).is_err());
}

#[test]
fn media_replay_request_with_long_alias_is_refused() {
    let mut req = request();
    req.alias = Some("y".repeat(97));
    let e = check_media_replay_request(&req).unwrap_err();
    assert_eq!(e.status, 400);
    assert_eq!(e.body.unwrap().error, "alias is too long (max 96 chars)");
}

#[test]
fn stream_media_is_oldest_first_and_filtered() {
    let mut json = entry("meta.json", STREAM, "calibration", Some(1));
    json.size_bytes = 10;
    let mut empty = entry("empty.mp4", STREAM, "calibration", Some(2));
    empty.size_bytes = 0;
    let mut dir = entry("dir", STREAM, "calibration", Some(3));
    dir.is_file = false;
    let entries = vec![
        entry("late.mp4", STREAM, "calibration", Some(300)),
        entry("other-stream.mp4", OTHER, "calibration", Some(5)),
        entry("early.mp4", STREAM, "calibration", Some(100)),
        entry("snapshot.jpg", STREAM, "snapshot", Some(50)),
        json,
        empty,
        dir,
        entry("also-early.mp4", STREAM, "calibration", Some(100)),
        entry("untimed.mp4", STREAM, "calibration", None),
    ];
    let names = select_stream_media(&entries, STREAM, &None).unwrap();
    assert_eq!(names, vec!["untimed.mp4", "early.mp4", "also-early.mp4", "late.mp4"]);
    let snaps = select_stream_media(&entries, STREAM, &Some("  snapshot ".to_string())).unwrap();
    assert_eq!(snaps, vec!["snapshot.jpg"]);
}

#[test]
fn stream_media_without_a_match_is_not_found() {
    let entries = vec![entry("a.mp4", OTHER, "calibration", Some(1))];
    let e = select_stream_media(&entries, STREAM, &Some("recording".to_string())).unwrap_err();
    assert_eq!(e.status, 404);
    let body = e.body.unwrap();
    assert_eq!(body.engine_code, Some(EngineErrorCode::NotFound));
    assert_eq!(
        body.error,
        "no media matched streamId=11112222-3333-4444-5555-666677778888 kind=recording"
    );
}

#[test]
fn replay_media_names_are_checked() {
    assert_eq!(check_replay_media_name("  clip.mp4 ").unwrap(), "clip.mp4");
    for bad in ["", "   ", "a/b.mp4", "a\\b.mp4", "..mp4", "x..y"] {
        let e = check_replay_media_name(bad).unwrap_err();
        assert_eq!(e.status, 400);
        assert_eq!(e.body.unwrap().error, format!("invalid media name: {}", bad));
    }
}

#[test]
fn annexb_hints_follow_the_extension() {
    assert_eq!(raw_annexb_format_hint("clip.H264"), Some("h264"));
    assert_eq!(raw_annexb_format_hint("clip.avc"), Some("h264"));
    assert_eq!(raw_annexb_format_hint("clip.h265"), Some("hevc"));
    assert_eq!(raw_annexb_format_hint("clip.tar.HEVC "), Some("hevc"));
    assert_eq!(raw_annexb_format_hint("hevc"), Some("hevc"));
    assert_eq!(raw_annexb_format_hint("clip.mp4"), None);
    assert_eq!(raw_annexb_format_hint("clip"), None);
}

#[test]
fn annexb_replay_is_refused() {
    let r = annexb_refusal("clip.h264");
    assert_eq!(r.status, 400);
    assert_eq!(
        r.body.unwrap().error,
        "raw annex-b replay is no longer supported for clip.h264; containerize the capture as mp4 first"
    );
}

#[test]
fn replay_fps_prefers_request_then_inferred_then_thirty() {
    assert_eq!(replay_fps(Some(60), Some(25)), 60);
    assert_eq!(replay_fps(None, Some(25)), 25);
    assert_eq!(replay_fps(None, None), 30);
    assert_eq!(replay_fps(Some(0), None), 1);
    assert_eq!(replay_fps(None, Some(1000)), 240);
}

#[test]
fn replay_source_stream_needs_one_agreed_stream() {
    assert_eq!(replay_source_stream(Some(OTHER), &vec![STREAM]), Some(OTHER));
    assert_eq!(replay_source_stream(None, &vec![STREAM, STREAM]), Some(STREAM));
    assert_eq!(replay_source_stream(None, &vec![STREAM, OTHER]), None);
    assert_eq!(replay_source_stream(None, &vec![]), None);
}

#[test]
fn replay_alias_is_trimmed_or_generated() {
    assert_eq!(replay_alias_or(&Some("  bench  ".to_string()), STREAM), "bench");
    assert_eq!(
        replay_alias_or(&Some("   ".to_string()), STREAM),
        "media-replay-11112222-3333-4444-5555-666677778888"
    );
    assert_eq!(replay_alias_or(&None, OTHER), "media-replay-9999aaaa-bbbb-cccc-dddd-eeeeffff0000");
}

#[test]
fn media_replay_pipeline_shows_raw_output() {
    let ids = ReservedPipelineIds { raw: 7, calibration_mode: 8 };
    let p = media_replay_pipeline(&ids);
    assert!(p.pipeline_enabled);
    assert!(p.pipelines.is_empty());
    assert_eq!(p.active_pipeline_id, Some(7));
    assert_eq!(p.active_pipeline_output.as_deref(), Some("raw"));
    let layout = p.pipeline_layout.unwrap();
    assert_eq!((layout.rows, layout.columns, layout.slots.len()), (1, 1, 1));
    assert_eq!(layout.slots[0].pipeline_id, Some(7));
    assert_eq!(layout.slots[0].output_key.as_deref(), Some("raw"));
    assert!(p.pipeline_wires.is_empty());
}

#[test]
fn replay_takes_named_files_then_stream_captures() {
    let mut req = request();
    req.stream_id = Some(STREAM);
    assert_eq!(replay_source(&req).unwrap(), ReplaySource::StreamCaptures(STREAM));
    req.files = vec!["a.mp4".to_string()];
    assert_eq!(replay_source(&req).unwrap(), ReplaySource::Files);
    let e = replay_source(&request()).unwrap_err();
    assert_eq!(e.status, 400);
    assert_eq!(e.body.unwrap().error, "provide either files or streamId");
}
