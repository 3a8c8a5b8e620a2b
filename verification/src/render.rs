//! The render supervisor's decisions: what a status line of the engine
//! means, which progress events go out, and how a job ends.

use vstd::prelude::*;
use crate::graph::{PlanView, RenderPlan};
use crate::text::{i64_of, parse_i64, starts_with, text_chars};

verus! {

/// The least time between two progress events, in milliseconds.
pub const EMIT_INTERVAL: u64 = 300;

/// The highest percentage reported while the engine runs.
pub const RUNNING_CAP: u32 = 99;

/// The percentage reported when the engine has ended well.
pub const COMPLETE: u32 = 100;

/// The elapsed output time, in microseconds, that a status line reports:
/// the integer behind `out_time_ms=`. Other lines report none.
pub open spec fn out_time_of(line: Seq<char>) -> Option<i64> {
    let key = "out_time_ms="@;
    if key.is_prefix_of(line) {
        i64_of(line.skip(key.len() as int))
    } else {
        None
    }
}

/// The share of `expected` that `elapsed` is, in whole percent, rounded
/// down and held at 99. Before the start it is 0; of an empty output every
/// time from the start on is 99.
pub open spec fn percent_of(elapsed: int, expected: nat) -> nat {
    if elapsed < 0 {
        0
    } else if expected == 0 {
        RUNNING_CAP as nat
    } else if 100 * elapsed / (expected as int) >= RUNNING_CAP {
        RUNNING_CAP as nat
    } else {
        (100 * elapsed / (expected as int)) as nat
    }
}

/// Reads the elapsed output time that a status line of the engine reports.
pub fn parse_out_time(line: &str) -> (elapsed: Option<i64>)
    ensures
        elapsed == out_time_of(line@),
{
    let chars = text_chars(line);
    let key = text_chars("out_time_ms=");
    if starts_with(&chars, &key) {
        parse_i64(&chars, key.len())
    } else {
        None
    }
}

/// Progress in whole percent for `elapsed` microseconds of an output that
/// will be `expected` microseconds long.
pub fn progress_percent(elapsed: i64, expected: u64) -> (percent: u32)
    ensures
        percent == percent_of(elapsed as int, expected as nat),
        percent <= RUNNING_CAP,
{
    if elapsed < 0 {
        0
    } else if expected == 0 {
        RUNNING_CAP
    } else {
        let share: u128 = 100 * (elapsed as u128) / (expected as u128);
        if share >= RUNNING_CAP as u128 {
            RUNNING_CAP
        } else {
            share as u32
        }
    }
}

/// Why the engine did not deliver.
#[derive(Debug, Clone, PartialEq, Eq)]
pub enum EngineError {
    /// The engine's program is not where it should be.
    NotFound { path: String },
    /// The engine's program could not be started.
    SpawnFailed { reason: String },
    /// The engine was started, and its end could not be waited for.
    WaitFailed { reason: String },
    /// The engine ran and ended with a failure; `stderr` is what it wrote
    /// on its error channel, as it wrote it.
    ExecutionFailed { stderr: String },
}

/// Mathematical content of an [`EngineError`].
pub ghost enum EngineErrorView {
    NotFound { path: Seq<char> },
    SpawnFailed { reason: Seq<char> },
    WaitFailed { reason: Seq<char> },
    ExecutionFailed { stderr: Seq<char> },
}

impl View for EngineError {
    type V = EngineErrorView;

    open spec fn view(&self) -> EngineErrorView {
        match self {
            EngineError::NotFound { path } => EngineErrorView::NotFound { path: path@ },
            EngineError::SpawnFailed { reason } => EngineErrorView::SpawnFailed {
                reason: reason@,
            },
            EngineError::WaitFailed { reason } => EngineErrorView::WaitFailed { reason: reason@ },
            EngineError::ExecutionFailed { stderr } => EngineErrorView::ExecutionFailed {
                stderr: stderr@,
            },
        }
    }
}

impl EngineErrorView {
    /// The one-line description of the failure.
    pub open spec fn message(self) -> Seq<char> {
        match self {
            EngineErrorView::NotFound { path } => "FFmpeg binary not found at: "@ + path,
            EngineErrorView::SpawnFailed { reason } => "Failed to run FFmpeg: "@ + reason,
            EngineErrorView::WaitFailed { reason } => "Failed to wait for FFmpeg: "@ + reason,
            EngineErrorView::ExecutionFailed { stderr } => "FFmpeg failed: "@ + stderr,
        }
    }
}

impl EngineError {
    /// The one-line description of the failure.
    pub fn message(&self) -> (text: String)
        ensures
            text@ == self@.message(),
    {
        match self {
            EngineError::NotFound { path } => {
                let mut text = String::from_str("FFmpeg binary not found at: ");
                text.append(path.as_str());
                text
            },
            EngineError::SpawnFailed { reason } => {
                let mut text = String::from_str("Failed to run FFmpeg: ");
                text.append(reason.as_str());
                text
            },
            EngineError::WaitFailed { reason } => {
                let mut text = String::from_str("Failed to wait for FFmpeg: ");
                text.append(reason.as_str());
                text
            },
            EngineError::ExecutionFailed { stderr } => {
                let mut text = String::from_str("FFmpeg failed: ");
                text.append(stderr.as_str());
                text
            },
        }
    }
}

/// How an engine run is judged: a run that ended well is no failure, any
/// other is an execution failure that carries the engine's error text.
pub open spec fn run_verdict(success: bool, stderr: Seq<char>) -> Result<(), EngineErrorView> {
    if success {
        Ok(())
    } else {
        Err(EngineErrorView::ExecutionFailed { stderr })
    }
}

/// Judges an engine run by its exit status.
pub fn judge_run(success: bool, stderr: String) -> (verdict: Result<(), EngineError>)
    ensures
        match verdict {
            Ok(_) => run_verdict(success, stderr@) == Ok::<(), EngineErrorView>(()),
            Err(error) => run_verdict(success, stderr@) == Err::<(), EngineErrorView>(error@),
        },
{
    if success {
        Ok(())
    } else {
        Err(EngineError::ExecutionFailed { stderr })
    }
}

/// The progress event that goes out when the engine has exited: 100 after
/// a good exit, none after a bad one.
pub open spec fn closing_event(success: bool) -> Option<nat> {
    if success {
        Some(COMPLETE as nat)
    } else {
        None
    }
}

/// One running export: what it renders to, how long the output will be,
/// when it last reported, and what.
#[derive(Debug)]
pub struct RenderJob {
    expected_duration: u64,
    output_path: String,
    last_emit: u64,
    progress: u32,
}

/// Mathematical content of a [`RenderJob`].
pub ghost struct JobView {
    /// Length of the output in microseconds.
    pub expected_duration: nat,
    /// The file that the engine writes.
    pub output_path: Seq<char>,
    /// Clock reading, in milliseconds, from which the next interval counts.
    pub last_emit: nat,
    /// The percentage last reported.
    pub progress: nat,
}

/// How a job ended: the last progress event, if one goes out, and the
/// result for the caller.
#[derive(Debug, PartialEq, Eq)]
pub struct JobEnd {
    pub last_event: Option<u32>,
    pub outcome: Result<String, EngineError>,
}

/// Mathematical content of a [`JobEnd`].
pub ghost struct JobEndView {
    pub last_event: Option<nat>,
    pub outcome: Result<Seq<char>, EngineErrorView>,
}

impl View for JobEnd {
    type V = JobEndView;

    open spec fn view(&self) -> JobEndView {
        JobEndView {
            last_event: match self.last_event {
                Some(percent) => Some(percent as nat),
                None => None,
            },
            outcome: match self.outcome {
                Ok(path) => Ok(path@),
                Err(error) => Err(error@),
            },
        }
    }
}

impl JobView {
    /// The job as it stands when a plan is accepted at `now`: nothing
    /// reported but the opening 0, the first interval counting from `now`.
    pub open spec fn accepted(plan: PlanView, now: nat) -> JobView {
        JobView {
            expected_duration: plan.expected_duration,
            output_path: plan.output_path,
            last_emit: now,
            progress: 0,
        }
    }

    /// The progress event that a status line read at `now` sets off: the
    /// percentage of the elapsed time it reports, if the interval since the
    /// last event is over. A line that reports no time sets off none.
    pub open spec fn emits(self, line: Seq<char>, now: nat) -> Option<nat> {
        match out_time_of(line) {
            Some(elapsed) => if now >= self.last_emit + EMIT_INTERVAL {
                Some(percent_of(elapsed as int, self.expected_duration))
            } else {
                None
            },
            None => None,
        }
    }

    /// The job after a status line read at `now`.
    pub open spec fn after(self, line: Seq<char>, now: nat) -> JobView {
        match self.emits(line, now) {
            Some(percent) => JobView { last_emit: now, progress: percent, ..self },
            None => self,
        }
    }

    /// How the job ends when the engine has exited: after a good exit, the
    /// event 100 and the output path; after a bad one no event, and the
    /// engine's error text.
    pub open spec fn ended(self, success: bool, stderr: Seq<char>) -> JobEndView {
        JobEndView {
            last_event: closing_event(success),
            outcome: if success {
                Ok(self.output_path)
            } else {
                Err(EngineErrorView::ExecutionFailed { stderr })
            },
        }
    }
}

impl View for RenderJob {
    type V = JobView;

    closed spec fn view(&self) -> JobView {
        JobView {
            expected_duration: self.expected_duration as nat,
            output_path: self.output_path@,
            last_emit: self.last_emit as nat,
            progress: self.progress as nat,
        }
    }
}

impl RenderJob {
    /// Accepts a plan at clock reading `now`, in milliseconds, once the
    /// engine runs: a plan whose engine could not be started becomes no job
    /// and sets off no event. Returns the job and the opening progress
    /// event, which is 0.
    pub fn accept(plan: &RenderPlan, now: u64) -> (started: (RenderJob, u32))
        ensures
            started.0@ == JobView::accepted(plan@, now as nat),
            started.1 == 0,
    {
        (
            RenderJob {
                expected_duration: plan.expected_duration,
                output_path: plan.output_path.clone(),
                last_emit: now,
                progress: 0,
            },
            0,
        )
    }

    /// Takes one line of the engine's status channel, read at clock reading
    /// `now`. Returns the progress event to send, if the line sets one off.
    pub fn on_status_line(&mut self, line: &str, now: u64) -> (event: Option<u32>)
        ensures
            final(self)@ == old(self)@.after(line@, now as nat),
            match event {
                Some(percent) => old(self)@.emits(line@, now as nat) == Some(percent as nat),
                None => old(self)@.emits(line@, now as nat) is None,
            },
            event matches Some(percent) ==> percent <= RUNNING_CAP,
    {
        match parse_out_time(line) {
            Some(elapsed) => {
                let percent = progress_percent(elapsed, self.expected_duration);
                if now >= self.last_emit && now - self.last_emit >= EMIT_INTERVAL {
                    self.last_emit = now;
                    self.progress = percent;
                    Some(percent)
                } else {
                    None
                }
            },
            None => None,
        }
    }

    /// Ends the job when the engine has exited, well or not; `stderr` is
    /// what it wrote on its error channel.
    pub fn on_exit(self, success: bool, stderr: String) -> (end: JobEnd)
        ensures
            end@ == self@.ended(success, stderr@),
    {
        if success {
            JobEnd { last_event: Some(COMPLETE), outcome: Ok(self.output_path) }
        } else {
            JobEnd { last_event: None, outcome: Err(EngineError::ExecutionFailed { stderr }) }
        }
    }

    /// The percentage last reported.
    pub fn progress(&self) -> (percent: u32)
        ensures
            percent == self@.progress,
    {
        self.progress
    }

    /// Length of the output in microseconds.
    pub fn expected_duration(&self) -> (micros: u64)
        ensures
            micros == self@.expected_duration,
    {
        self.expected_duration
    }
}

/// One line of the status channel, and the clock reading at which it was
/// read.
pub ghost struct StatusReport {
    pub line: Seq<char>,
    pub now: nat,
}

/// The progress events that a job sends while it reads `reports` in order.
pub open spec fn running_events(job: JobView, reports: Seq<StatusReport>) -> Seq<nat>
    decreases reports.len(),
{
    if reports.len() == 0 {
        Seq::empty()
    } else {
        let first = reports[0];
        let rest = running_events(job.after(first.line, first.now), reports.drop_first());
        match job.emits(first.line, first.now) {
            Some(percent) => seq![percent] + rest,
            None => rest,
        }
    }
}

/// Every progress event of one job, in order: the opening 0 when the plan
/// is accepted at `start`, the events set off by `reports`, and the event
/// at the engine's exit, where there is one.
pub open spec fn job_events(
    plan: PlanView,
    start: nat,
    reports: Seq<StatusReport>,
    success: bool,
) -> Seq<nat> {
    let running = seq![0nat] + running_events(JobView::accepted(plan, start), reports);
    match closing_event(success) {
        Some(percent) => running.push(percent),
        None => running,
    }
}

/// The elapsed times reported by those of `reports` that set off a
/// progress event, in order.
pub open spec fn emitting_times(job: JobView, reports: Seq<StatusReport>) -> Seq<int>
    decreases reports.len(),
{
    if reports.len() == 0 {
        Seq::empty()
    } else {
        let first = reports[0];
        let rest = emitting_times(job.after(first.line, first.now), reports.drop_first());
        match job.emits(first.line, first.now) {
            Some(_) => seq![out_time_of(first.line)->0 as int] + rest,
            None => rest,
        }
    }
}

/// Of two lines that set off a progress event, the later never reports
/// less elapsed time. Lines that set off no event may report any time.
pub open spec fn emitted_time_never_goes_back(
    plan: PlanView,
    start: nat,
    reports: Seq<StatusReport>,
) -> bool {
    let times = emitting_times(JobView::accepted(plan, start), reports);
    forall|j: int, k: int| 0 <= j < k < times.len() ==> times[j] <= times[k]
}

/// Of two lines that report an elapsed time, the later never reports less.
pub open spec fn time_never_goes_back(reports: Seq<StatusReport>) -> bool {
    forall|i: int, j: int|
        0 <= i < j < reports.len() && out_time_of(#[trigger] reports[i].line) is Some
            && out_time_of(#[trigger] reports[j].line) is Some ==> out_time_of(
            reports[i].line,
        )->0 <= out_time_of(reports[j].line)->0
}

/// More elapsed time never gives a smaller percentage, and no time gives
/// more than 99.
pub proof fn lemma_percent_grows(earlier: int, later: int, expected: nat)
    requires
        earlier <= later,
    ensures
        percent_of(earlier, expected) <= percent_of(later, expected) <= RUNNING_CAP,
{
    if earlier >= 0 && expected > 0 {
        vstd::arithmetic::div_mod::lemma_div_is_ordered(
            100 * earlier,
            100 * later,
            expected as int,
        );
    }
}

/// Every event that a job sends while it reads its status lines is the
/// percentage of the time that the line reports.
pub proof fn lemma_events_follow_times(job: JobView, reports: Seq<StatusReport>)
    ensures
        running_events(job, reports).len() == emitting_times(job, reports).len(),
        forall|k: int|
            0 <= k < running_events(job, reports).len() ==> #[trigger] running_events(
                job,
                reports,
            )[k] == percent_of(emitting_times(job, reports)[k], job.expected_duration),
    decreases reports.len(),
{
    if reports.len() > 0 {
        let first = reports[0];
        let next = job.after(first.line, first.now);
        lemma_events_follow_times(next, reports.drop_first());
        let later = running_events(next, reports.drop_first());
        let events = running_events(job, reports);
        let times = emitting_times(job, reports);
        let later_times = emitting_times(next, reports.drop_first());
        assert forall|k: int| 0 <= k < events.len() implies #[trigger] events[k] == percent_of(
            times[k],
            job.expected_duration,
        ) by {
            if job.emits(first.line, first.now) is Some {
                if k > 0 {
                    assert(events[k] == later[k - 1]);
                    assert(times[k] == later_times[k - 1]);
                }
            }
        }
    }
}

/// Where of all lines that report a time the later never reports less,
/// the same holds of the lines that set off an event, and none of them
/// reports less than `floor` if none of all does.
proof fn lemma_emitting_times_in_order(job: JobView, reports: Seq<StatusReport>, floor: int)
    requires
        time_never_goes_back(reports),
        forall|i: int|
            0 <= i < reports.len() && out_time_of(#[trigger] reports[i].line) is Some
                ==> out_time_of(reports[i].line)->0 >= floor,
    ensures
        forall|k: int|
            0 <= k < emitting_times(job, reports).len() ==> floor <= #[trigger] emitting_times(
                job,
                reports,
            )[k],
        forall|j: int, k: int|
            0 <= j < k < emitting_times(job, reports).len() ==> #[trigger] emitting_times(
                job,
                reports,
            )[j] <= #[trigger] emitting_times(job, reports)[k],
    decreases reports.len(),
{
    if reports.len() > 0 {
        let first = reports[0];
        let rest = reports.drop_first();
        let next = job.after(first.line, first.now);
        let times = emitting_times(job, reports);
        let later = emitting_times(next, rest);
        assert forall|i: int, j: int|
            0 <= i < j < rest.len() && out_time_of(#[trigger] rest[i].line) is Some && out_time_of(
                #[trigger] rest[j].line,
            ) is Some implies out_time_of(rest[i].line)->0 <= out_time_of(rest[j].line)->0 by {
            assert(rest[i] == reports[i + 1] && rest[j] == reports[j + 1]);
        }
        if job.emits(first.line, first.now) is Some {
            let reported = out_time_of(first.line)->0 as int;
            assert forall|i: int|
                0 <= i < rest.len() && out_time_of(
                    #[trigger] rest[i].line,
                ) is Some implies out_time_of(rest[i].line)->0 >= reported by {
                assert(rest[i] == reports[i + 1]);
            }
            lemma_emitting_times_in_order(next, rest, reported);
            assert(times == seq![reported] + later);
            assert forall|k: int| 0 <= k < times.len() implies floor <= #[trigger] times[k] by {
                if k > 0 {
                    assert(times[k] == later[k - 1]);
                }
            }
            assert forall|j: int, k: int| 0 <= j < k < times.len() implies #[trigger] times[j]
                <= #[trigger] times[k] by {
                assert(times[k] == later[k - 1]);
                if j > 0 {
                    assert(times[j] == later[j - 1]);
                }
            }
        } else {
            assert forall|i: int|
                0 <= i < rest.len() && out_time_of(
                    #[trigger] rest[i].line,
                ) is Some implies out_time_of(rest[i].line)->0 >= floor by {
                assert(rest[i] == reports[i + 1]);
            }
            lemma_emitting_times_in_order(next, rest, floor);
        }
    }
}

/// A run in which no line reports less time than an earlier line is a run
/// in which no line that sets off an event does.
pub proof fn lemma_time_order_carries_over(
    plan: PlanView,
    start: nat,
    reports: Seq<StatusReport>,
)
    requires
        time_never_goes_back(reports),
    ensures
        emitted_time_never_goes_back(plan, start, reports),
{
    lemma_emitting_times_in_order(JobView::accepted(plan, start), reports, i64::MIN as int);
}

/// Within one job the progress events never go down and never pass 99
/// before the engine has ended well; the event at a good end is 100, and it
/// is the last. This holds of every run in which, of the lines that set
/// off an event, the later never reports less elapsed time.
pub proof fn lemma_progress_events(
    plan: PlanView,
    start: nat,
    reports: Seq<StatusReport>,
    success: bool,
)
    requires
        emitted_time_never_goes_back(plan, start, reports),
    ensures
        forall|j: int, k: int|
            0 <= j < k < job_events(plan, start, reports, success).len() ==> #[trigger] job_events(
                plan,
                start,
                reports,
                success,
            )[j] <= #[trigger] job_events(plan, start, reports, success)[k],
        forall|k: int|
            0 <= k < 1 + running_events(JobView::accepted(plan, start), reports).len()
                ==> #[trigger] job_events(plan, start, reports, success)[k] <= RUNNING_CAP,
        job_events(plan, start, reports, success).len() == 1 + running_events(
            JobView::accepted(plan, start),
            reports,
        ).len() + if success {
            1int
        } else {
            0int
        },
        success ==> job_events(plan, start, reports, success).last() == COMPLETE,
{
    let job = JobView::accepted(plan, start);
    let running = running_events(job, reports);
    let times = emitting_times(job, reports);
    let events = job_events(plan, start, reports, success);
    lemma_events_follow_times(job, reports);
    assert forall|k: int| 0 <= k < running.len() implies #[trigger] running[k] <= RUNNING_CAP by {
        lemma_percent_grows(times[k], times[k], job.expected_duration);
    }
    assert forall|j: int, k: int| 0 <= j < k < running.len() implies #[trigger] running[j]
        <= #[trigger] running[k] by {
        lemma_percent_grows(times[j], times[k], job.expected_duration);
    }
    assert forall|k: int| 0 <= k < 1 + running.len() implies #[trigger] events[k]
        <= RUNNING_CAP by {
        if k > 0 {
            assert(events[k] == running[k - 1]);
        }
    }
    assert forall|j: int, k: int| 0 <= j < k < events.len() implies #[trigger] events[j]
        <= #[trigger] events[k] by {
        if k < 1 + running.len() {
            assert(events[k] == running[k - 1]);
            if j > 0 {
                assert(events[j] == running[j - 1]);
            }
        } else {
            assert(events[k] == COMPLETE);
            assert(events[j] <= RUNNING_CAP);
        }
    }
}

} // verus!
