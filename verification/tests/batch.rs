use label_print::batch::{Action, Batch, Event, Summary};
use label_print::printers::list_printers;
use label_print::queue::{FileState, QueuedFile};
use label_print::tracker::{OutOfTurn, Request, Response, TrackOutcome, DEFAULT_TIMEOUT_MS};

const QUEUE: &str = "zprint-12  user   1024   Thu 01 Jan 2024 10:00:00\n";

fn paths(list: &[&str]) -> Vec<String> {
    list.iter().map(|path| path.to_string()).collect()
}

fn batch(list: &[&str]) -> Batch {
    Batch::new("zprint".to_string(), &paths(list), DEFAULT_TIMEOUT_MS)
}

fn pending(path: &str) -> QueuedFile {
    QueuedFile { path: path.to_string(), state: FileState::Pending }
}

fn used(path: &str) -> QueuedFile {
    QueuedFile { path: path.to_string(), state: FileState::Used }
}

fn submit(path: &str) -> Action {
    Action::Job(Request::Submit { printer: "zprint".to_string(), path: path.to_string() })
}

/// What the print subsystem does in a run: whether it accepts files, what
/// its listing of outstanding jobs holds, and when, in milliseconds after a
/// file was accepted, its job shows among the completed jobs.
struct World {
    accepts: bool,
    queue: &'static str,
    completes_after: Option<u64>,
    answer: &'static str,
}

/// What was done in a run.
#[derive(Debug, Default, PartialEq)]
struct Tally {
    asked: usize,
    submitted: Vec<String>,
    cancelled: Vec<String>,
    renamed: Vec<(String, String)>,
    polls: usize,
    slept_ms: u64,
}

/// Runs a batch to its end in `world`, doing what it asks for.
fn run(batch: &mut Batch, world: &World) -> (Summary, Tally) {
    let mut tally = Tally::default();
    let mut now: u64 = 0;
    let mut accepted_at: u64 = 0;
    let mut action = batch.wanted();
    let mut turns = 0;
    loop {
        turns += 1;
        assert!(turns < 10_000);
        let event = match action {
            Action::Finish(summary) => return (summary, tally),
            Action::Confirm => {
                tally.asked += 1;
                Event::Answer { text: world.answer.to_string() }
            },
            Action::MarkUsed { from, to } => {
                tally.renamed.push((from, to));
                Event::Renamed
            },
            Action::Job(Request::Submit { printer, path }) => {
                assert_eq!(printer, "zprint");
                tally.submitted.push(path);
                now += 5;
                accepted_at = now;
                Event::Job(Response::SubmitExited { success: world.accepts })
            },
            Action::Job(Request::ListJobs) => {
                Event::Job(Response::JobListing { text: world.queue.to_string() })
            },
            Action::Job(Request::ListCompleted) => {
                tally.polls += 1;
                let shown = match world.completes_after {
                    Some(delay) => now - accepted_at >= delay,
                    None => false,
                };
                let text = if shown { QUEUE } else { "other-7 user 1 Thu\n" };
                Event::Job(Response::CompletedListing { text: text.to_string() })
            },
            Action::Job(Request::Sleep { millis }) => {
                tally.slept_ms += millis;
                now += millis;
                Event::Job(Response::Slept)
            },
            Action::Job(Request::Cancel { job_id }) => {
                tally.cancelled.push(job_id);
                Event::Job(Response::CancelIssued)
            },
        };
        action = batch.step(event, now).unwrap();
    }
}

#[test]
fn one_file_whose_job_completes_after_three_seconds_is_renamed() {
    let mut b = batch(&["label1.zpl"]);
    let world = World { accepts: true, queue: QUEUE, completes_after: Some(3_000), answer: "n" };
    let (summary, tally) = run(&mut b, &world);
    assert_eq!(summary, Summary::Processed { remind: false });
    assert_eq!(
        tally,
        Tally {
            asked: 0,
            submitted: paths(&["label1.zpl"]),
            cancelled: Vec::new(),
            renamed: vec![("label1.zpl".to_string(), "label1.used".to_string())],
            polls: 4,
            slept_ms: 3_000,
        }
    );
    assert_eq!(b.files(), &vec![used("label1.used")]);
    assert_eq!(b.outcomes(), &vec![TrackOutcome::Completed("zprint-12".to_string())]);
}

#[test]
fn one_file_step_by_step() {
    let mut b = batch(&["label1.zpl"]);
    assert_eq!(b.printer(), "zprint");
    assert_eq!(b.timeout_ms(), 60_000);
    assert_eq!(b.wanted(), submit("label1.zpl"));
    assert_eq!(
        b.step(Event::Job(Response::SubmitExited { success: true }), 0),
        Ok(Action::Job(Request::ListJobs))
    );
    assert_eq!(b.job(), None);
    assert_eq!(
        b.step(Event::Job(Response::JobListing { text: QUEUE.to_string() }), 1),
        Ok(Action::Job(Request::ListCompleted))
    );
    assert_eq!(b.job().unwrap().job_id, "zprint-12");
    assert_eq!(b.job().unwrap().source_file_path, "label1.zpl");
    assert_eq!(
        b.step(Event::Job(Response::CompletedListing { text: String::new() }), 2),
        Ok(Action::Job(Request::Sleep { millis: 1_000 }))
    );
    assert_eq!(b.step(Event::Job(Response::Slept), 1_002), Ok(Action::Job(Request::ListCompleted)));
    assert_eq!(
        b.step(Event::Job(Response::CompletedListing { text: QUEUE.to_string() }), 1_003),
        Ok(Action::MarkUsed { from: "label1.zpl".to_string(), to: "label1.used".to_string() })
    );
    assert_eq!(b.files(), &vec![pending("label1.zpl")]);
    assert!(b.outcomes().is_empty());
    assert_eq!(b.step(Event::Renamed, 1_004), Ok(Action::Finish(Summary::Processed { remind: false })));
    assert_eq!(b.files(), &vec![used("label1.used")]);
    assert_eq!(b.outcomes(), &vec![TrackOutcome::Completed("zprint-12".to_string())]);
    assert_eq!(b.wanted(), Action::Finish(Summary::Processed { remind: false }));
}

#[test]
fn two_files_declined_are_left_alone() {
    let mut b = batch(&["a.zpl", "b.zpl"]);
    assert_eq!(b.wanted(), Action::Confirm);
    let world = World { accepts: true, queue: QUEUE, completes_after: Some(0), answer: "n\n" };
    let (summary, tally) = run(&mut b, &world);
    assert_eq!(summary, Summary::Declined);
    assert_eq!(tally, Tally { asked: 1, ..Tally::default() });
    assert_eq!(b.files(), &vec![pending("a.zpl"), pending("b.zpl")]);
    assert!(b.outcomes().is_empty());
    assert_eq!(b.step(Event::Answer { text: "y".to_string() }, 0), Err(OutOfTurn));
}

#[test]
fn anything_but_a_yes_declines() {
    for answer in ["", "no", "yes", "yy", "\n"] {
        let mut b = batch(&["a.zpl", "b.zpl"]);
        assert_eq!(
            b.step(Event::Answer { text: answer.to_string() }, 0),
            Ok(Action::Finish(Summary::Declined)),
            "{:?}",
            answer
        );
    }
}

#[test]
fn one_file_whose_job_never_completes_is_cancelled_and_left() {
    let mut b = batch(&["label1.zpl"]);
    let world = World { accepts: true, queue: QUEUE, completes_after: None, answer: "y" };
    let (summary, tally) = run(&mut b, &world);
    assert_eq!(summary, Summary::Processed { remind: false });
    assert_eq!(
        tally,
        Tally {
            asked: 0,
            submitted: paths(&["label1.zpl"]),
            cancelled: paths(&["zprint-12"]),
            renamed: Vec::new(),
            polls: 60,
            slept_ms: 60_000,
        }
    );
    assert_eq!(b.files(), &vec![pending("label1.zpl")]);
    assert_eq!(b.outcomes(), &vec![TrackOutcome::TimedOut("zprint-12".to_string())]);
}

#[test]
fn no_printer_found_where_none_matches() {
    let extras = vec!["zprint".to_string(), "Zebra-ZP-450".to_string()];
    let listing = "printer HP_LaserJet is idle.  enabled since Thu 01 Jan 2024\n";
    assert!(list_printers(listing, "ZTC-ZP-450-200dpi", &extras).is_empty());
}

#[test]
fn a_batch_without_files_has_ended() {
    let mut b = batch(&["notes.txt", "label1.used"]);
    assert_eq!(b.wanted(), Action::Finish(Summary::NothingToDo));
    assert!(b.files().is_empty());
    assert_eq!(b.step(Event::Renamed, 0), Err(OutOfTurn));
    assert_eq!(b.step(Event::Job(Response::Slept), 0), Err(OutOfTurn));
}

#[test]
fn a_second_run_submits_nothing() {
    let mut first = batch(&["a.zpl", "notes.txt", "b.ZPL"]);
    let world = World { accepts: true, queue: QUEUE, completes_after: Some(0), answer: "y" };
    let (summary, tally) = run(&mut first, &world);
    assert_eq!(summary, Summary::Processed { remind: true });
    assert_eq!(tally.submitted, paths(&["a.zpl", "b.ZPL"]));
    assert_eq!(first.files(), &vec![used("a.used"), used("b.used")]);
    let mut second = batch(&["a.used", "notes.txt", "b.used"]);
    let (summary, tally) = run(&mut second, &world);
    assert_eq!(summary, Summary::NothingToDo);
    assert_eq!(tally, Tally::default());
}

#[test]
fn an_agreed_batch_prints_every_file_in_turn_and_reminds() {
    let mut b = batch(&["a.zpl", "skip.txt", "b.zpl", "c.zpl"]);
    let world = World { accepts: true, queue: QUEUE, completes_after: Some(1_000), answer: " Y \n" };
    let (summary, tally) = run(&mut b, &world);
    assert_eq!(summary, Summary::Processed { remind: true });
    assert_eq!(tally.asked, 1);
    assert_eq!(tally.submitted, paths(&["a.zpl", "b.zpl", "c.zpl"]));
    assert_eq!(
        tally.renamed,
        vec![
            ("a.zpl".to_string(), "a.used".to_string()),
            ("b.zpl".to_string(), "b.used".to_string()),
            ("c.zpl".to_string(), "c.used".to_string()),
        ]
    );
    assert!(tally.cancelled.is_empty());
    assert_eq!(b.files(), &vec![used("a.used"), used("b.used"), used("c.used")]);
}

#[test]
fn a_refused_file_is_left_and_the_next_has_its_turn() {
    let mut b = batch(&["a.zpl", "b.zpl"]);
    assert_eq!(b.step(Event::Answer { text: "y".to_string() }, 0), Ok(submit("a.zpl")));
    assert_eq!(b.step(Event::Job(Response::SubmitExited { success: false }), 1), Ok(submit("b.zpl")));
    assert_eq!(b.outcomes(), &vec![TrackOutcome::SubmissionFailed]);
    assert_eq!(
        b.step(Event::Job(Response::SubmitExited { success: true }), 2),
        Ok(Action::Job(Request::ListJobs))
    );
    assert_eq!(
        b.step(Event::Job(Response::JobListing { text: "other-3 user\n".to_string() }), 3),
        Ok(Action::Finish(Summary::Processed { remind: true }))
    );
    assert_eq!(b.outcomes(), &vec![TrackOutcome::SubmissionFailed, TrackOutcome::JobIdNotFound]);
    assert_eq!(b.files(), &vec![pending("a.zpl"), pending("b.zpl")]);
}

#[test]
fn a_batch_where_nothing_is_accepted_renames_nothing() {
    let mut b = batch(&["a.zpl", "b.zpl"]);
    let world = World { accepts: false, queue: QUEUE, completes_after: Some(0), answer: "y" };
    let (summary, tally) = run(&mut b, &world);
    assert_eq!(summary, Summary::Processed { remind: true });
    assert_eq!(tally.submitted, paths(&["a.zpl", "b.zpl"]));
    assert!(tally.renamed.is_empty());
    assert!(tally.cancelled.is_empty());
    assert_eq!(tally.polls, 0);
    assert_eq!(b.files(), &vec![pending("a.zpl"), pending("b.zpl")]);
}

#[test]
fn a_batch_whose_jobs_are_not_found_renames_nothing() {
    let mut b = batch(&["a.zpl"]);
    let world = World { accepts: true, queue: "hp-1 user 12\n", completes_after: Some(0), answer: "y" };
    let (summary, tally) = run(&mut b, &world);
    assert_eq!(summary, Summary::Processed { remind: false });
    assert_eq!(tally.submitted, paths(&["a.zpl"]));
    assert!(tally.renamed.is_empty());
    assert!(tally.cancelled.is_empty());
    assert_eq!(b.outcomes(), &vec![TrackOutcome::JobIdNotFound]);
    assert_eq!(b.files(), &vec![pending("a.zpl")]);
}

#[test]
fn each_timed_out_job_is_cancelled_once() {
    let mut b = batch(&["a.zpl", "b.zpl"]);
    let world = World { accepts: true, queue: QUEUE, completes_after: None, answer: "y" };
    let (_, tally) = run(&mut b, &world);
    assert_eq!(tally.submitted, paths(&["a.zpl", "b.zpl"]));
    assert_eq!(tally.cancelled, paths(&["zprint-12", "zprint-12"]));
    assert!(tally.renamed.is_empty());
    assert_eq!(
        b.outcomes(),
        &vec![
            TrackOutcome::TimedOut("zprint-12".to_string()),
            TrackOutcome::TimedOut("zprint-12".to_string()),
        ]
    );
}

#[test]
fn an_event_out_of_turn_changes_nothing() {
    let mut b = batch(&["a.zpl"]);
    assert_eq!(b.step(Event::Renamed, 0), Err(OutOfTurn));
    assert_eq!(b.step(Event::Answer { text: "y".to_string() }, 0), Err(OutOfTurn));
    assert_eq!(b.step(Event::Job(Response::CancelIssued), 0), Err(OutOfTurn));
    assert_eq!(b.wanted(), submit("a.zpl"));
    let mut asking = batch(&["a.zpl", "b.zpl"]);
    assert_eq!(asking.step(Event::Job(Response::SubmitExited { success: true }), 0), Err(OutOfTurn));
    assert_eq!(asking.wanted(), Action::Confirm);
}

#[test]
fn a_rename_is_awaited_before_the_next_file() {
    let mut b = batch(&["a.zpl", "b.zpl"]);
    assert_eq!(b.step(Event::Answer { text: "y".to_string() }, 0), Ok(submit("a.zpl")));
    assert!(b.step(Event::Job(Response::SubmitExited { success: true }), 0).is_ok());
    assert!(b.step(Event::Job(Response::JobListing { text: QUEUE.to_string() }), 0).is_ok());
    let marked = Action::MarkUsed { from: "a.zpl".to_string(), to: "a.used".to_string() };
    assert_eq!(
        b.step(Event::Job(Response::CompletedListing { text: QUEUE.to_string() }), 0),
        Ok(marked)
    );
    assert_eq!(b.step(Event::Job(Response::Slept), 0), Err(OutOfTurn));
    assert_eq!(b.wanted(), Action::MarkUsed { from: "a.zpl".to_string(), to: "a.used".to_string() });
    assert_eq!(b.step(Event::Renamed, 0), Ok(submit("b.zpl")));
    assert_eq!(b.files(), &vec![used("a.used"), pending("b.zpl")]);
}
