use clipforge::graph::RenderPlan;
use clipforge::render::{
    judge_run, parse_out_time, progress_percent, EngineError, JobEnd, RenderJob, COMPLETE,
    EMIT_INTERVAL, RUNNING_CAP,
};

fn plan(expected_duration: u64) -> RenderPlan {
    RenderPlan {
        args: vec![String::from("-y")],
        expected_duration,
        output_path: String::from("/out/final.mp4"),
    }
}

#[test]
fn half_of_five_seconds_is_fifty_percent() {
    assert_eq!(parse_out_time("out_time_ms=2500000"), Some(2_500_000));
    assert_eq!(progress_percent(2_500_000, 5_000_000), 50);
}

#[test]
fn percent_is_rounded_down() {
    assert_eq!(progress_percent(0, 5_000_000), 0);
    assert_eq!(progress_percent(49_999, 5_000_000), 0);
    assert_eq!(progress_percent(50_000, 5_000_000), 1);
    assert_eq!(progress_percent(1_666_666, 5_000_000), 33);
    assert_eq!(progress_percent(4_949_999, 5_000_000), 98);
    assert_eq!(progress_percent(1, 3), 33);
    assert_eq!(progress_percent(2, 3), 66);
}

#[test]
fn percent_is_held_at_ninety_nine() {
    assert_eq!(RUNNING_CAP, 99);
    assert_eq!(progress_percent(4_950_000, 5_000_000), 99);
    assert_eq!(progress_percent(5_000_000, 5_000_000), 99);
    assert_eq!(progress_percent(50_000_000, 5_000_000), 99);
    assert_eq!(progress_percent(i64::MAX, 1), 99);
    assert_eq!(progress_percent(i64::MAX, u64::MAX), 49);
}

#[test]
fn time_before_the_start_is_zero_percent() {
    assert_eq!(progress_percent(-1, 5_000_000), 0);
    assert_eq!(progress_percent(i64::MIN, 5_000_000), 0);
    assert_eq!(progress_percent(-1, 0), 0);
}

#[test]
fn empty_output_is_ninety_nine_percent_from_the_start() {
    assert_eq!(progress_percent(0, 0), 99);
    assert_eq!(progress_percent(1, 0), 99);
}

#[test]
fn only_the_elapsed_time_key_is_read() {
    assert_eq!(parse_out_time("out_time_ms=0"), Some(0));
    assert_eq!(parse_out_time("out_time_ms=-9223372036854775808"), Some(i64::MIN));
    assert_eq!(parse_out_time("out_time_ms=+12"), Some(12));
    assert_eq!(parse_out_time("out_time_us=2500000"), None);
    assert_eq!(parse_out_time("out_time=00:00:02.500000"), None);
    assert_eq!(parse_out_time("progress=continue"), None);
    assert_eq!(parse_out_time("frame=75"), None);
    assert_eq!(parse_out_time(""), None);
    assert_eq!(parse_out_time("out_time_ms"), None);
}

#[test]
fn malformed_times_are_skipped() {
    assert_eq!(parse_out_time("out_time_ms="), None);
    assert_eq!(parse_out_time("out_time_ms=N/A"), None);
    assert_eq!(parse_out_time("out_time_ms= 5"), None);
    assert_eq!(parse_out_time("out_time_ms=5 "), None);
    assert_eq!(parse_out_time("out_time_ms=5\r"), None);
    assert_eq!(parse_out_time(" out_time_ms=5"), None);
    assert_eq!(parse_out_time("OUT_TIME_MS=5"), None);
    assert_eq!(parse_out_time("out_time_ms=9223372036854775808"), None);
    assert_eq!(parse_out_time("out_time_ms=2.5"), None);
}

#[test]
fn job_opens_with_zero() {
    let (job, first) = RenderJob::accept(&plan(5_000_000), 1_000);
    assert_eq!(first, 0);
    assert_eq!(job.progress(), 0);
    assert_eq!(job.expected_duration(), 5_000_000);
}

#[test]
fn events_are_at_least_an_interval_apart() {
    assert_eq!(EMIT_INTERVAL, 300);
    let (mut job, _) = RenderJob::accept(&plan(5_000_000), 1_000);
    assert_eq!(job.on_status_line("out_time_ms=500000", 1_000), None);
    assert_eq!(job.on_status_line("out_time_ms=1000000", 1_299), None);
    assert_eq!(job.progress(), 0);
    assert_eq!(job.on_status_line("out_time_ms=1500000", 1_300), Some(30));
    assert_eq!(job.progress(), 30);
    assert_eq!(job.on_status_line("out_time_ms=2000000", 1_301), None);
    assert_eq!(job.on_status_line("out_time_ms=2500000", 1_599), None);
    assert_eq!(job.progress(), 30);
    assert_eq!(job.on_status_line("out_time_ms=2500000", 1_600), Some(50));
    assert_eq!(job.on_status_line("out_time_ms=9000000", 5_000), Some(99));
    assert_eq!(job.progress(), 99);
}

#[test]
fn lines_without_a_time_neither_emit_nor_reset_the_interval() {
    let (mut job, _) = RenderJob::accept(&plan(5_000_000), 0);
    assert_eq!(job.on_status_line("progress=continue", 400), None);
    assert_eq!(job.on_status_line("out_time_ms=N/A", 450), None);
    assert_eq!(job.on_status_line("out_time_ms=2500000", 460), Some(50));
}

#[test]
fn clock_reading_before_the_last_event_emits_nothing() {
    let (mut job, _) = RenderJob::accept(&plan(5_000_000), 10_000);
    assert_eq!(job.on_status_line("out_time_ms=2500000", 0), None);
    assert_eq!(job.on_status_line("out_time_ms=2500000", 10_299), None);
    assert_eq!(job.on_status_line("out_time_ms=2500000", 10_300), Some(50));
}

#[test]
fn interval_near_the_end_of_the_clock_does_not_wrap() {
    let (mut job, _) = RenderJob::accept(&plan(5_000_000), u64::MAX - 100);
    assert_eq!(job.on_status_line("out_time_ms=2500000", u64::MAX), None);
}

#[test]
fn events_of_a_run_never_go_down_and_end_at_one_hundred() {
    let (mut job, first) = RenderJob::accept(&plan(10_000_000), 0);
    let mut events = vec![first];
    let mut now = 0;
    for elapsed in (0..=12_000_000i64).step_by(250_000) {
        now += 120;
        let line = format!("out_time_ms={}", elapsed);
        if let Some(percent) = job.on_status_line(&line, now) {
            events.push(percent);
        }
        assert_eq!(job.on_status_line("speed=1.2x", now), None);
    }
    let end = job.on_exit(true, String::new());
    assert!(events.iter().all(|p| *p <= 99));
    events.extend(end.last_event);
    assert!(events.windows(2).all(|w| w[0] <= w[1]));
    assert_eq!(events.first(), Some(&0));
    assert_eq!(events.last(), Some(&100));
    assert!(events.len() > 10);
    assert_eq!(end.outcome, Ok(String::from("/out/final.mp4")));
}

#[test]
fn good_exit_ends_with_one_hundred_and_the_output_path() {
    assert_eq!(COMPLETE, 100);
    let (job, _) = RenderJob::accept(&plan(5_000_000), 0);
    assert_eq!(
        job.on_exit(true, String::from("ignored")),
        JobEnd { last_event: Some(100), outcome: Ok(String::from("/out/final.mp4")) }
    );
}

#[test]
fn bad_exit_ends_without_an_event_and_with_the_engine_text() {
    let (mut job, _) = RenderJob::accept(&plan(5_000_000), 0);
    assert_eq!(job.on_status_line("out_time_ms=4000000", 300), Some(80));
    assert_eq!(
        job.on_exit(false, String::from("Invalid data found\nwhen processing input")),
        JobEnd {
            last_event: None,
            outcome: Err(EngineError::ExecutionFailed {
                stderr: String::from("Invalid data found\nwhen processing input")
            }),
        }
    );
}

#[test]
fn runs_are_judged_by_their_exit() {
    assert_eq!(judge_run(true, String::from("warnings")), Ok(()));
    assert_eq!(
        judge_run(false, String::from("boom")),
        Err(EngineError::ExecutionFailed { stderr: String::from("boom") })
    );
}

#[test]
fn engine_errors_describe_themselves() {
    assert_eq!(
        EngineError::NotFound { path: String::from("/bin/ffmpeg-x") }.message(),
        "FFmpeg binary not found at: /bin/ffmpeg-x"
    );
    assert_eq!(
        EngineError::SpawnFailed { reason: String::from("permission denied") }.message(),
        "Failed to run FFmpeg: permission denied"
    );
    assert_eq!(
        EngineError::WaitFailed { reason: String::from("interrupted") }.message(),
        "Failed to wait for FFmpeg: interrupted"
    );
    assert_eq!(
        EngineError::ExecutionFailed { stderr: String::from("bad input") }.message(),
        "FFmpeg failed: bad input"
    );
}

#[test]
fn smaller_time_on_a_line_that_sets_off_no_event_leaves_the_events_in_order() {
    let (mut job, first) = RenderJob::accept(&plan(5_000_000), 0);
    assert_eq!(first, 0);
    assert_eq!(job.on_status_line("out_time_ms=2500000", 300), Some(50));
    assert_eq!(job.on_status_line("out_time_ms=1000000", 400), None);
    assert_eq!(job.progress(), 50);
    assert_eq!(job.on_status_line("out_time_ms=3000000", 600), Some(60));
    assert_eq!(job.on_exit(true, String::new()).last_event, Some(100));
}

#[test]
fn smaller_time_on_a_line_that_sets_off_an_event_is_sent_as_it_is() {
    let (mut job, _) = RenderJob::accept(&plan(5_000_000), 0);
    assert_eq!(job.on_status_line("out_time_ms=2500000", 300), Some(50));
    assert_eq!(job.on_status_line("out_time_ms=1000000", 600), Some(20));
    assert_eq!(job.progress(), 20);
}
