use clipforge::graph::{
    build_export_plan, filter_graph_string, find_source, try_build_export_plan, PlanError,
};
use clipforge::settings::{FormatFamily, ResolutionTier};
use clipforge::timeline::{ExportRequest, TimelineClip, VideoMetadata};

fn source(path: &str) -> VideoMetadata {
    VideoMetadata {
        filename: String::from("clip.mp4"),
        path: String::from(path),
        duration: 60_000_000,
        resolution: String::from("1920x1080"),
        codec: String::from("h264"),
    }
}

fn clip(id: &str, source: &str, track: u32, start: u64, trim_start: u64, trim_end: u64) -> TimelineClip {
    TimelineClip {
        id: String::from(id),
        clip_id: String::from(source),
        track,
        start_time: start,
        trim_start,
        trim_end,
        duration: trim_end.saturating_sub(trim_start),
    }
}

fn request(clips: Vec<TimelineClip>, resolution: &str, format: &str) -> ExportRequest {
    ExportRequest {
        clips,
        output_path: String::from("/out/final.mp4"),
        resolution: String::from(resolution),
        format: String::from(format),
    }
}

fn strings(items: &[&str]) -> Vec<String> {
    items.iter().map(|s| String::from(*s)).collect()
}

const X264: [&str; 10] =
    ["-c:v", "libx264", "-preset", "medium", "-crf", "23", "-c:a", "aac", "-b:a", "192k"];

#[test]
fn one_clip_trimmed_from_two_to_seven_seconds_lasts_five() {
    let req = request(vec![clip("a", "/v/a.mp4", 0, 0, 2_000_000, 7_000_000)], "1080p", "mp4");
    assert!(req.is_well_formed());
    let plan = build_export_plan(&req, &vec![source("/v/a.mp4")]).unwrap();
    assert_eq!(plan.expected_duration, 5_000_000);
    assert_eq!(plan.output_path, "/out/final.mp4");
    let mut expected = strings(&[
        "-y",
        "-progress",
        "pipe:2",
        "-ss",
        "2",
        "-t",
        "5",
        "-i",
        "/v/a.mp4",
        "-filter_complex",
        "[0:v]scale=1920:1080:force_original_aspect_ratio=decrease,pad=1920:1080:(ow-iw)/2:(oh-ih)/2,setsar=1,fps=30[v0]; [v0]concat=n=1:v=1:a=0[outv]",
        "-map",
        "[outv]",
        "-map",
        "0:a?",
    ]);
    expected.extend(strings(&X264));
    expected.push(String::from("/out/final.mp4"));
    assert_eq!(plan.args, expected);
}

#[test]
fn each_tier_has_its_pixel_pair() {
    assert_eq!(ResolutionTier::from_name("720p").dimensions(), (1280, 720));
    assert_eq!(ResolutionTier::from_name("1080p").dimensions(), (1920, 1080));
    assert_eq!(ResolutionTier::from_name("1440p").dimensions(), (2560, 1440));
    assert_eq!(ResolutionTier::from_name("4K").dimensions(), (3840, 2160));
    assert_eq!(ResolutionTier::from_name("Source").dimensions(), (1920, 1080));
    assert_eq!(ResolutionTier::from_name("anything").dimensions(), (1920, 1080));
}

#[test]
fn tier_names_are_read_exactly() {
    assert_eq!(ResolutionTier::from_name("720p"), ResolutionTier::Hd720);
    assert_eq!(ResolutionTier::from_name("1080p"), ResolutionTier::Hd1080);
    assert_eq!(ResolutionTier::from_name("1440p"), ResolutionTier::Qhd1440);
    assert_eq!(ResolutionTier::from_name("4K"), ResolutionTier::Uhd4k);
    assert_eq!(ResolutionTier::from_name("4k"), ResolutionTier::Source);
    assert_eq!(ResolutionTier::from_name("720p "), ResolutionTier::Source);
    assert_eq!(ResolutionTier::from_name(""), ResolutionTier::Source);
}

#[test]
fn format_names_are_read_exactly() {
    assert_eq!(FormatFamily::from_name("webm"), FormatFamily::WebM);
    assert_eq!(FormatFamily::from_name("mov"), FormatFamily::Mov);
    assert_eq!(FormatFamily::from_name("mp4"), FormatFamily::Mp4);
    assert_eq!(FormatFamily::from_name("avi"), FormatFamily::Mp4);
    assert_eq!(FormatFamily::from_name("WEBM"), FormatFamily::Mp4);
}

#[test]
fn tier_720p_sets_the_canvas_of_every_stage() {
    let req = request(vec![clip("a", "/v/a.mp4", 0, 0, 0, 1_000_000)], "720p", "mp4");
    let plan = build_export_plan(&req, &vec![source("/v/a.mp4")]).unwrap();
    assert_eq!(
        plan.args[10],
        "[0:v]scale=1280:720:force_original_aspect_ratio=decrease,pad=1280:720:(ow-iw)/2:(oh-ih)/2,setsar=1,fps=30[v0]; [v0]concat=n=1:v=1:a=0[outv]"
    );
}

#[test]
fn missing_source_fails_with_source_not_found() {
    let req = request(vec![clip("a", "/v/gone.mp4", 0, 0, 0, 1_000_000)], "1080p", "mp4");
    let result = build_export_plan(&req, &vec![source("/v/a.mp4")]);
    assert_eq!(result, Err(PlanError::SourceNotFound { clip_id: String::from("/v/gone.mp4") }));
}

#[test]
fn first_missing_source_in_playing_order_is_reported() {
    let req = request(
        vec![
            clip("late", "/v/late-gone.mp4", 0, 9_000_000, 0, 1_000_000),
            clip("ok", "/v/a.mp4", 0, 1_000_000, 0, 1_000_000),
            clip("early", "/v/early-gone.mp4", 0, 5_000_000, 0, 1_000_000),
        ],
        "1080p",
        "mp4",
    );
    let result = build_export_plan(&req, &vec![source("/v/a.mp4")]);
    assert_eq!(
        result,
        Err(PlanError::SourceNotFound { clip_id: String::from("/v/early-gone.mp4") })
    );
}

#[test]
fn missing_overlay_source_fails_after_the_primary_track() {
    let req = request(
        vec![
            clip("pip", "/v/pip-gone.mp4", 1, 0, 0, 1_000_000),
            clip("a", "/v/a.mp4", 0, 0, 0, 1_000_000),
        ],
        "1080p",
        "mp4",
    );
    let result = build_export_plan(&req, &vec![source("/v/a.mp4")]);
    assert_eq!(result, Err(PlanError::SourceNotFound { clip_id: String::from("/v/pip-gone.mp4") }));
}

#[test]
fn request_without_clips_has_an_empty_primary_track() {
    let req = request(vec![], "1080p", "mp4");
    assert!(req.is_well_formed());
    assert_eq!(build_export_plan(&req, &vec![]), Err(PlanError::EmptyPrimaryTrack));
}

#[test]
fn request_with_overlay_clips_only_has_an_empty_primary_track() {
    let req = request(
        vec![
            clip("pip", "/v/a.mp4", 1, 0, 0, 1_000_000),
            clip("other", "/v/gone.mp4", 2, 0, 0, 1_000_000),
        ],
        "1080p",
        "mp4",
    );
    assert_eq!(
        build_export_plan(&req, &vec![source("/v/a.mp4")]),
        Err(PlanError::EmptyPrimaryTrack)
    );
    assert_eq!(build_export_plan(&req, &vec![]), Err(PlanError::EmptyPrimaryTrack));
}

#[test]
fn primary_clips_come_in_ascending_start_order() {
    let sources = vec![source("/v/a.mp4"), source("/v/b.mp4"), source("/v/c.mp4")];
    let a = clip("a", "/v/a.mp4", 0, 20_000_000, 1_000_000, 2_000_000);
    let b = clip("b", "/v/b.mp4", 0, 0, 3_000_000, 5_500_000);
    let c = clip("c", "/v/c.mp4", 0, 10_000_000, 250_000, 1_000_000);
    let shuffled = request(vec![a.clone(), b.clone(), c.clone()], "1080p", "mp4");
    let plan = build_export_plan(&shuffled, &sources).unwrap();
    assert_eq!(
        plan.args[3..21].to_vec(),
        strings(&[
            "-ss", "3", "-t", "2.5", "-i", "/v/b.mp4", "-ss", "0.25", "-t", "0.75", "-i",
            "/v/c.mp4", "-ss", "1", "-t", "1", "-i", "/v/a.mp4",
        ])
    );
    let other = request(vec![c, a, b], "1080p", "mp4");
    assert_eq!(build_export_plan(&other, &sources).unwrap(), plan);
}

#[test]
fn clips_that_start_together_keep_the_order_of_the_request() {
    let sources = vec![source("/v/a.mp4"), source("/v/b.mp4"), source("/v/c.mp4")];
    let req = request(
        vec![
            clip("b", "/v/b.mp4", 0, 5_000_000, 0, 1_000_000),
            clip("a", "/v/a.mp4", 0, 5_000_000, 0, 1_000_000),
            clip("c", "/v/c.mp4", 0, 0, 0, 1_000_000),
        ],
        "1080p",
        "mp4",
    );
    let plan = build_export_plan(&req, &sources).unwrap();
    assert_eq!(plan.args[8], "/v/c.mp4");
    assert_eq!(plan.args[14], "/v/b.mp4");
    assert_eq!(plan.args[20], "/v/a.mp4");
}

#[test]
fn expected_duration_leaves_the_overlay_out() {
    let sources = vec![source("/v/a.mp4"), source("/v/b.mp4")];
    let req = request(
        vec![
            clip("a", "/v/a.mp4", 0, 0, 1_000_000, 4_000_000),
            clip("pip", "/v/b.mp4", 1, 0, 0, 50_000_000),
            clip("b", "/v/b.mp4", 0, 3_000_000, 0, 1_500_000),
            clip("far", "/v/b.mp4", 7, 0, 0, 9_000_000),
        ],
        "1080p",
        "mp4",
    );
    let plan = build_export_plan(&req, &sources).unwrap();
    assert_eq!(plan.expected_duration, 4_500_000);
}

#[test]
fn first_overlay_clip_in_playing_order_is_laid_over() {
    let sources = vec![source("/v/a.mp4"), source("/v/p.mp4"), source("/v/q.mp4")];
    let req = request(
        vec![
            clip("q", "/v/q.mp4", 1, 8_000_000, 0, 2_000_000),
            clip("a", "/v/a.mp4", 0, 0, 0, 4_000_000),
            clip("p", "/v/p.mp4", 1, 1_000_000, 500_000, 2_000_000),
        ],
        "1080p",
        "webm",
    );
    let plan = build_export_plan(&req, &sources).unwrap();
    let mut expected = strings(&[
        "-y",
        "-progress",
        "pipe:2",
        "-ss",
        "0",
        "-t",
        "4",
        "-i",
        "/v/a.mp4",
        "-ss",
        "0.5",
        "-t",
        "1.5",
        "-i",
        "/v/p.mp4",
        "-filter_complex",
        "[0:v]scale=1920:1080:force_original_aspect_ratio=decrease,pad=1920:1080:(ow-iw)/2:(oh-ih)/2,setsar=1,fps=30[v0]; [v0]concat=n=1:v=1:a=0[outv]; [1:v]scale=320:240[overlay]; [outv][overlay]overlay=20:H-h-20[outv]",
        "-map",
        "[outv]",
        "-map",
        "0:a?",
        "-c:v",
        "libvpx-vp9",
        "-crf",
        "30",
        "-b:v",
        "0",
        "-c:a",
        "libopus",
        "-b:a",
        "128k",
        "/out/final.mp4",
    ]);
    assert_eq!(plan.args, std::mem::take(&mut expected));
    assert_eq!(plan.expected_duration, 4_000_000);
}

#[test]
fn mov_and_unknown_formats_get_the_default_encoder() {
    let sources = vec![source("/v/a.mp4")];
    for format in ["mov", "mp4", "mkv", ""] {
        let req = request(vec![clip("a", "/v/a.mp4", 0, 0, 0, 1_000_000)], "1080p", format);
        let plan = build_export_plan(&req, &sources).unwrap();
        assert_eq!(plan.args[15..25].to_vec(), strings(&X264));
        assert_eq!(plan.args.len(), 26);
    }
}

#[test]
fn same_inputs_give_the_same_plan() {
    let sources = vec![source("/v/a.mp4"), source("/v/b.mp4")];
    let req = request(
        vec![
            clip("b", "/v/b.mp4", 0, 3_000_000, 0, 1_500_000),
            clip("a", "/v/a.mp4", 0, 0, 1_000_000, 4_000_000),
            clip("pip", "/v/b.mp4", 1, 0, 0, 2_000_000),
        ],
        "4K",
        "mov",
    );
    let first = build_export_plan(&req, &sources);
    let second = build_export_plan(&req.clone(), &sources.clone());
    assert!(first.is_ok());
    assert_eq!(first, second);
}

#[test]
fn filter_graph_joins_every_primary_stream() {
    assert_eq!(
        filter_graph_string(2, false, 1280, 720),
        "[0:v]scale=1280:720:force_original_aspect_ratio=decrease,pad=1280:720:(ow-iw)/2:(oh-ih)/2,setsar=1,fps=30[v0]; [1:v]scale=1280:720:force_original_aspect_ratio=decrease,pad=1280:720:(ow-iw)/2:(oh-ih)/2,setsar=1,fps=30[v1]; [v0][v1]concat=n=2:v=1:a=0[outv]"
    );
    assert_eq!(filter_graph_string(0, false, 1, 2), "concat=n=0:v=1:a=0[outv]");
    assert_eq!(
        filter_graph_string(0, true, 1, 2),
        "concat=n=0:v=1:a=0[outv]; [0:v]scale=320:240[overlay]; [outv][overlay]overlay=20:H-h-20[outv]"
    );
}

#[test]
fn filter_graph_numbers_eleven_inputs_in_decimal() {
    let graph = filter_graph_string(11, true, 3840, 2160);
    assert!(graph.contains("[10:v]scale=3840:2160:"));
    assert!(graph.contains("fps=30[v10]; [v0][v1][v2][v3][v4][v5][v6][v7][v8][v9][v10]concat=n=11:v=1:a=0[outv]; [11:v]scale=320:240[overlay]"));
}

#[test]
fn source_lookup_finds_the_first_entry_with_the_path() {
    let sources = vec![source("/v/a.mp4"), source("/v/b.mp4"), source("/v/b.mp4")];
    assert_eq!(find_source(&sources, &String::from("/v/b.mp4")), Some(1));
    assert_eq!(find_source(&sources, &String::from("/v/a.mp4")), Some(0));
    assert_eq!(find_source(&sources, &String::from("/v/c.mp4")), None);
    assert_eq!(find_source(&vec![], &String::from("/v/a.mp4")), None);
}

#[test]
fn reversed_trim_window_is_not_well_formed() {
    let bad = clip("a", "/v/a.mp4", 0, 0, 5_000_000, 4_000_000);
    assert!(!bad.is_well_formed());
    assert!(!request(vec![bad.clone()], "1080p", "mp4").is_well_formed());
    let mut other_track = bad;
    other_track.track = 3;
    assert!(!request(vec![other_track], "1080p", "mp4").is_well_formed());
}

#[test]
fn empty_trim_window_is_well_formed() {
    let empty = clip("a", "/v/a.mp4", 0, 0, 5_000_000, 5_000_000);
    assert!(empty.is_well_formed());
    assert_eq!(empty.play_duration(), 0);
    let req = request(vec![empty], "1080p", "mp4");
    assert!(req.is_well_formed());
    let plan = build_export_plan(&req, &vec![source("/v/a.mp4")]).unwrap();
    assert_eq!(plan.expected_duration, 0);
    assert_eq!(plan.args[3..9].to_vec(), strings(&["-ss", "5", "-t", "0", "-i", "/v/a.mp4"]));
}

#[test]
fn play_time_beyond_64_bits_is_not_well_formed() {
    let long = clip("a", "/v/a.mp4", 0, 0, 0, u64::MAX);
    let short = clip("b", "/v/a.mp4", 0, 0, 0, 1);
    assert!(request(vec![long.clone()], "1080p", "mp4").is_well_formed());
    assert!(!request(vec![long.clone(), short.clone()], "1080p", "mp4").is_well_formed());
    let mut overlay = short;
    overlay.track = 1;
    assert!(request(vec![long, overlay], "1080p", "mp4").is_well_formed());
}

#[test]
fn plan_errors_describe_themselves() {
    assert_eq!(
        PlanError::EmptyPrimaryTrack.message(),
        "No clips on main track (Track 0) to export"
    );
    assert_eq!(
        PlanError::SourceNotFound { clip_id: String::from("/v/a.mp4") }.message(),
        "Source clip not found: /v/a.mp4"
    );
}

#[test]
fn checked_build_refuses_what_is_not_well_formed() {
    let sources = vec![source("/v/a.mp4")];
    let bad = request(vec![clip("a", "/v/a.mp4", 0, 0, 5_000_000, 4_000_000)], "1080p", "mp4");
    assert_eq!(try_build_export_plan(&bad, &sources), None);
    let good = request(vec![clip("a", "/v/a.mp4", 0, 0, 4_000_000, 5_000_000)], "1080p", "mp4");
    assert_eq!(try_build_export_plan(&good, &sources), Some(build_export_plan(&good, &sources)));
    assert_eq!(try_build_export_plan(&good, &sources).unwrap().unwrap().expected_duration, 1_000_000);
    let empty = request(vec![], "1080p", "mp4");
    assert_eq!(try_build_export_plan(&empty, &sources), Some(Err(PlanError::EmptyPrimaryTrack)));
}

#[test]
fn missing_source_of_an_unused_overlay_clip_fails_the_build() {
    let sources = vec![source("/m.mp4"), source("/o.mp4")];
    let req = request(
        vec![
            clip("main", "/m.mp4", 0, 0, 0, 1_000_000),
            clip("pip", "/o.mp4", 1, 0, 0, 1_000_000),
            clip("later", "/x.mp4", 1, 5_000_000, 0, 1_000_000),
        ],
        "1080p",
        "mp4",
    );
    assert_eq!(
        build_export_plan(&req, &sources),
        Err(PlanError::SourceNotFound { clip_id: String::from("/x.mp4") })
    );
}

#[test]
fn missing_source_on_a_track_that_is_not_rendered_fails_the_build() {
    let sources = vec![source("/m.mp4")];
    let req = request(
        vec![
            clip("far", "/far.mp4", 2, 0, 0, 1_000_000),
            clip("main", "/m.mp4", 0, 0, 0, 1_000_000),
        ],
        "1080p",
        "mp4",
    );
    assert_eq!(
        build_export_plan(&req, &sources),
        Err(PlanError::SourceNotFound { clip_id: String::from("/far.mp4") })
    );
    assert_eq!(
        try_build_export_plan(&req, &sources),
        Some(Err(PlanError::SourceNotFound { clip_id: String::from("/far.mp4") }))
    );
}

#[test]
fn missing_sources_are_reported_track_zero_then_track_one_then_the_rest() {
    let all = vec![
        clip("far", "/far-gone.mp4", 5, 0, 0, 1_000_000),
        clip("pip-late", "/pip-late-gone.mp4", 1, 9_000_000, 0, 1_000_000),
        clip("main-late", "/main-late-gone.mp4", 0, 9_000_000, 0, 1_000_000),
        clip("pip-early", "/pip-early-gone.mp4", 1, 1_000_000, 0, 1_000_000),
        clip("main-early", "/main-early-gone.mp4", 0, 1_000_000, 0, 1_000_000),
        clip("further", "/further-gone.mp4", 9, 0, 0, 1_000_000),
    ];
    let expected = [
        "/main-early-gone.mp4",
        "/main-late-gone.mp4",
        "/pip-early-gone.mp4",
        "/pip-late-gone.mp4",
        "/far-gone.mp4",
        "/further-gone.mp4",
    ];
    let mut sources: Vec<VideoMetadata> = Vec::new();
    for missing in expected {
        let result = build_export_plan(&request(all.clone(), "1080p", "mp4"), &sources);
        assert_eq!(result, Err(PlanError::SourceNotFound { clip_id: String::from(missing) }));
        sources.push(source(missing));
    }
    assert!(build_export_plan(&request(all, "1080p", "mp4"), &sources).is_ok());
}

#[test]
fn plan_with_every_source_known_uses_the_first_overlay_only() {
    let sources = vec![source("/m.mp4"), source("/o.mp4"), source("/x.mp4"), source("/far.mp4")];
    let req = request(
        vec![
            clip("main", "/m.mp4", 0, 0, 0, 1_000_000),
            clip("later", "/x.mp4", 1, 5_000_000, 0, 1_000_000),
            clip("far", "/far.mp4", 2, 0, 0, 1_000_000),
            clip("pip", "/o.mp4", 1, 0, 0, 1_000_000),
        ],
        "1080p",
        "mp4",
    );
    let plan = build_export_plan(&req, &sources).unwrap();
    assert_eq!(plan.args[8], "/m.mp4");
    assert_eq!(plan.args[14], "/o.mp4");
    assert_eq!(plan.args[15], "-filter_complex");
    assert!(!plan.args.contains(&String::from("/x.mp4")));
    assert!(!plan.args.contains(&String::from("/far.mp4")));
}
