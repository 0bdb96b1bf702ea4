use label_print::tracker::{
    JobTracker, OutOfTurn, Phase, PrintJob, Request, Response, Step, TrackOutcome,
    DEFAULT_TIMEOUT_MS, POLL_INTERVAL_MS,
};

const QUEUE: &str = "other-3    user   10     Thu 01 Jan 2024 09:59:00\n\
                     zprint-12  user   1024   Thu 01 Jan 2024 10:00:00\n";

fn tracker(timeout_ms: u64) -> JobTracker {
    JobTracker::new("zprint".to_string(), "label1.zpl".to_string(), timeout_ms)
}

fn job_listing(text: &str) -> Response {
    Response::JobListing { text: text.to_string() }
}

fn completed_listing(text: &str) -> Response {
    Response::CompletedListing { text: text.to_string() }
}

fn ask(request: Request) -> Result<Step, OutOfTurn> {
    Ok(Step::Ask(request))
}

fn done(outcome: TrackOutcome) -> Result<Step, OutOfTurn> {
    Ok(Step::Done(outcome))
}

/// A tracker that has found job `zprint-12`, submitted when the clock read
/// `submitted_at`, and looks for it among the completed jobs.
fn polling(timeout_ms: u64, submitted_at: u64) -> JobTracker {
    let mut t = tracker(timeout_ms);
    assert_eq!(t.step(Response::SubmitExited { success: true }, submitted_at), ask(Request::ListJobs));
    assert_eq!(t.step(job_listing(QUEUE), submitted_at), ask(Request::ListCompleted));
    t
}

#[test]
fn the_constants_are_a_minute_and_a_second() {
    assert_eq!(DEFAULT_TIMEOUT_MS, 60_000);
    assert_eq!(POLL_INTERVAL_MS, 1_000);
}

#[test]
fn a_new_tracker_wants_the_file_submitted() {
    let t = tracker(DEFAULT_TIMEOUT_MS);
    assert_eq!(
        t.wanted(),
        Step::Ask(Request::Submit { printer: "zprint".to_string(), path: "label1.zpl".to_string() })
    );
    assert_eq!(t.phase(), &Phase::Submitting);
    assert_eq!(t.job(), None);
}

#[test]
fn a_failed_submission_ends_the_tracking() {
    let mut t = tracker(DEFAULT_TIMEOUT_MS);
    assert_eq!(
        t.step(Response::SubmitExited { success: false }, 5),
        done(TrackOutcome::SubmissionFailed)
    );
    assert_eq!(t.wanted(), Step::Done(TrackOutcome::SubmissionFailed));
    assert_eq!(t.phase(), &Phase::Finished(TrackOutcome::SubmissionFailed));
}

#[test]
fn an_accepted_file_has_its_job_looked_up() {
    let mut t = tracker(DEFAULT_TIMEOUT_MS);
    assert_eq!(t.step(Response::SubmitExited { success: true }, 5), ask(Request::ListJobs));
    assert_eq!(t.phase(), &Phase::Identifying { submitted_at: 5 });
}

#[test]
fn a_listing_without_the_printer_ends_in_job_id_not_found() {
    let mut t = tracker(DEFAULT_TIMEOUT_MS);
    assert_eq!(t.step(Response::SubmitExited { success: true }, 0), ask(Request::ListJobs));
    assert_eq!(
        t.step(job_listing("other-3  user  10  Thu\n"), 1),
        done(TrackOutcome::JobIdNotFound)
    );
    assert_eq!(t.job(), None);
}

#[test]
fn an_empty_listing_ends_in_job_id_not_found() {
    let mut t = tracker(DEFAULT_TIMEOUT_MS);
    assert_eq!(t.step(Response::SubmitExited { success: true }, 0), ask(Request::ListJobs));
    assert_eq!(t.step(job_listing(""), 1), done(TrackOutcome::JobIdNotFound));
}

#[test]
fn a_found_job_is_on_record_with_its_submission() {
    let mut t = tracker(DEFAULT_TIMEOUT_MS);
    assert_eq!(t.step(Response::SubmitExited { success: true }, 7), ask(Request::ListJobs));
    assert_eq!(t.step(job_listing(QUEUE), 9), ask(Request::ListCompleted));
    let job = PrintJob {
        job_id: "zprint-12".to_string(),
        printer_name: "zprint".to_string(),
        source_file_path: "label1.zpl".to_string(),
        submitted_at: 7,
        deadline: DEFAULT_TIMEOUT_MS,
    };
    assert_eq!(t.job(), Some(job.duplicate()));
    assert_eq!(t.phase(), &Phase::Polling(job));
}

#[test]
fn a_job_seen_completed_ends_the_tracking() {
    let mut t = polling(DEFAULT_TIMEOUT_MS, 0);
    assert_eq!(
        t.step(completed_listing("zprint-12  user  1024  Thu\n"), 10),
        done(TrackOutcome::Completed("zprint-12".to_string()))
    );
    assert_eq!(t.wanted(), Step::Done(TrackOutcome::Completed("zprint-12".to_string())));
}

#[test]
fn a_job_not_seen_is_looked_for_again_after_a_second() {
    let mut t = polling(DEFAULT_TIMEOUT_MS, 0);
    assert_eq!(
        t.step(completed_listing("zprint-11  user  1024  Thu\n"), 10),
        ask(Request::Sleep { millis: 1_000 })
    );
    assert_eq!(t.step(Response::Slept, 1_010), ask(Request::ListCompleted));
}

#[test]
fn a_job_completing_after_three_seconds_is_seen() {
    let mut t = polling(DEFAULT_TIMEOUT_MS, 0);
    let mut now: u64 = 0;
    let mut polls = 0;
    while now < 3_000 {
        assert_eq!(t.step(completed_listing(""), now), ask(Request::Sleep { millis: 1_000 }));
        now += 1_000;
        assert_eq!(t.step(Response::Slept, now), ask(Request::ListCompleted));
        polls += 1;
    }
    assert_eq!(polls, 3);
    assert_eq!(
        t.step(completed_listing("zprint-12 user 1024\n"), now),
        done(TrackOutcome::Completed("zprint-12".to_string()))
    );
}

#[test]
fn a_job_is_cancelled_once_its_time_is_up() {
    let mut t = polling(60_000, 100);
    let mut now: u64 = 100;
    let mut cancels = 0;
    let outcome = loop {
        let step = match t.wanted() {
            Step::Done(outcome) => break outcome,
            Step::Ask(Request::ListCompleted) => t.step(completed_listing("other-3 user\n"), now),
            Step::Ask(Request::Sleep { millis }) => {
                now += millis;
                t.step(Response::Slept, now)
            },
            Step::Ask(Request::Cancel { job_id }) => {
                assert_eq!(job_id, "zprint-12");
                assert_eq!(now, 60_100);
                cancels += 1;
                t.step(Response::CancelIssued, now)
            },
            Step::Ask(other) => panic!("{:?}", other),
        };
        assert!(step.is_ok());
    };
    assert_eq!(outcome, TrackOutcome::TimedOut("zprint-12".to_string()));
    assert_eq!(cancels, 1);
}

#[test]
fn the_last_look_is_just_before_the_time_is_up() {
    let mut t = polling(60_000, 0);
    assert_eq!(t.step(completed_listing(""), 0), ask(Request::Sleep { millis: 1_000 }));
    assert_eq!(t.step(Response::Slept, 59_999), ask(Request::ListCompleted));
    assert_eq!(t.step(completed_listing(""), 59_999), ask(Request::Sleep { millis: 1_000 }));
    assert_eq!(
        t.step(Response::Slept, 60_000),
        ask(Request::Cancel { job_id: "zprint-12".to_string() })
    );
    assert_eq!(
        t.step(Response::CancelIssued, 60_001),
        done(TrackOutcome::TimedOut("zprint-12".to_string()))
    );
}

#[test]
fn time_counts_from_the_submission() {
    let mut t = tracker(1_000);
    assert_eq!(t.step(Response::SubmitExited { success: true }, 5_000), ask(Request::ListJobs));
    assert_eq!(t.step(job_listing(QUEUE), 5_999), ask(Request::ListCompleted));
    let mut late = tracker(1_000);
    assert_eq!(late.step(Response::SubmitExited { success: true }, 5_000), ask(Request::ListJobs));
    assert_eq!(
        late.step(job_listing(QUEUE), 6_000),
        ask(Request::Cancel { job_id: "zprint-12".to_string() })
    );
}

#[test]
fn a_job_with_no_time_is_cancelled_without_a_look() {
    let mut t = tracker(0);
    assert_eq!(t.step(Response::SubmitExited { success: true }, 0), ask(Request::ListJobs));
    assert_eq!(
        t.step(job_listing(QUEUE), 0),
        ask(Request::Cancel { job_id: "zprint-12".to_string() })
    );
    assert_eq!(
        t.step(Response::CancelIssued, 0),
        done(TrackOutcome::TimedOut("zprint-12".to_string()))
    );
}

#[test]
fn a_clock_that_runs_backwards_counts_as_no_time() {
    let mut t = polling(1_000, 5_000);
    assert_eq!(t.step(completed_listing(""), 10), ask(Request::Sleep { millis: 1_000 }));
    assert_eq!(t.step(Response::Slept, 20), ask(Request::ListCompleted));
}

#[test]
fn print_job_expires_at_its_deadline() {
    let job = PrintJob {
        job_id: "zprint-12".to_string(),
        printer_name: "zprint".to_string(),
        source_file_path: "label1.zpl".to_string(),
        submitted_at: 1_000,
        deadline: 60_000,
    };
    assert!(!job.expired(0));
    assert!(!job.expired(1_000));
    assert!(!job.expired(60_999));
    assert!(job.expired(61_000));
    assert!(job.expired(u64::MAX));
    assert_eq!(job.duplicate(), job);
}

#[test]
fn a_response_out_of_turn_is_refused() {
    let mut t = tracker(DEFAULT_TIMEOUT_MS);
    assert_eq!(t.step(Response::Slept, 0), Err(OutOfTurn));
    assert_eq!(t.step(job_listing(QUEUE), 0), Err(OutOfTurn));
    assert_eq!(t.step(completed_listing("zprint-12"), 0), Err(OutOfTurn));
    assert_eq!(t.step(Response::CancelIssued, 0), Err(OutOfTurn));
    assert_eq!(t.phase(), &Phase::Submitting);
    let mut p = polling(DEFAULT_TIMEOUT_MS, 0);
    assert_eq!(p.step(Response::SubmitExited { success: true }, 0), Err(OutOfTurn));
    assert_eq!(p.step(Response::Slept, 0), Err(OutOfTurn));
    assert_eq!(p.step(Response::CancelIssued, 0), Err(OutOfTurn));
    assert_eq!(p.wanted(), Step::Ask(Request::ListCompleted));
}

#[test]
fn a_tracker_that_is_done_refuses_everything() {
    let mut t = tracker(DEFAULT_TIMEOUT_MS);
    assert_eq!(
        t.step(Response::SubmitExited { success: false }, 0),
        done(TrackOutcome::SubmissionFailed)
    );
    assert_eq!(t.step(Response::SubmitExited { success: true }, 1), Err(OutOfTurn));
    assert_eq!(t.step(Response::CancelIssued, 1), Err(OutOfTurn));
    assert_eq!(t.wanted(), Step::Done(TrackOutcome::SubmissionFailed));
}
