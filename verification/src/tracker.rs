//! The job tracker: one print job from its submission to its end.
//!
//! The tracker takes no step in the outside world. It says what it wants
//! done next, a `Request`; the caller does it and hands the `Response` to
//! `JobTracker::step` together with the reading of a clock.

use vstd::prelude::*;
use crate::jobs::{check_job_status, get_job_id, job_id_in};
use crate::text::occurs;

verus! {

/// The time a job is given to complete unless the caller says otherwise, in
/// milliseconds.
pub const DEFAULT_TIMEOUT_MS: u64 = 60_000;

/// The pause between two looks at the completed jobs, in milliseconds.
pub const POLL_INTERVAL_MS: u64 = 1_000;

/// How the tracking of a job ended.
#[derive(Debug, PartialEq, Eq)]
pub enum TrackOutcome {
    /// The job with this identifier was seen among the completed jobs.
    Completed(String),
    /// The job with this identifier was not seen completed in time, and its
    /// cancellation was requested.
    TimedOut(String),
    /// The print subsystem did not accept the file.
    SubmissionFailed,
    /// The file was accepted, and no job on the printer was found.
    JobIdNotFound,
}

/// A `TrackOutcome` as contracts see it.
pub ghost enum OutcomeView {
    Completed(Seq<char>),
    TimedOut(Seq<char>),
    SubmissionFailed,
    JobIdNotFound,
}

impl View for TrackOutcome {
    type V = OutcomeView;

    open spec fn view(&self) -> OutcomeView {
        match self {
            TrackOutcome::Completed(id) => OutcomeView::Completed(id@),
            TrackOutcome::TimedOut(id) => OutcomeView::TimedOut(id@),
            TrackOutcome::SubmissionFailed => OutcomeView::SubmissionFailed,
            TrackOutcome::JobIdNotFound => OutcomeView::JobIdNotFound,
        }
    }
}

/// A job that the print subsystem has queued.
#[derive(Debug, PartialEq, Eq)]
pub struct PrintJob {
    /// The identifier that the print subsystem gave the job.
    pub job_id: String,
    /// The printer that the job was sent to.
    pub printer_name: String,
    /// The file that the job prints.
    pub source_file_path: String,
    /// The reading of the clock when the file was accepted, in milliseconds.
    pub submitted_at: u64,
    /// The time that the job is given to complete, in milliseconds.
    pub deadline: u64,
}

/// A `PrintJob` as contracts see it.
pub ghost struct PrintJobView {
    pub job_id: Seq<char>,
    pub printer_name: Seq<char>,
    pub source_file_path: Seq<char>,
    pub submitted_at: u64,
    pub deadline: u64,
}

impl PrintJobView {
    /// The time since the job was submitted, in milliseconds; none where the
    /// clock reads less than it did then.
    pub open spec fn elapsed(self, now: u64) -> int {
        if now >= self.submitted_at {
            now - self.submitted_at
        } else {
            0
        }
    }

    /// Whether the job's time is up.
    pub open spec fn expired(self, now: u64) -> bool {
        self.elapsed(now) >= self.deadline
    }
}

impl View for PrintJob {
    type V = PrintJobView;

    open spec fn view(&self) -> PrintJobView {
        PrintJobView {
            job_id: self.job_id@,
            printer_name: self.printer_name@,
            source_file_path: self.source_file_path@,
            submitted_at: self.submitted_at,
            deadline: self.deadline,
        }
    }
}

impl PrintJob {
    /// Whether the job's time is up when the clock reads `now_ms`.
    pub fn expired(&self, now_ms: u64) -> (up: bool)
        ensures
            up == self@.expired(now_ms),
    {
        let elapsed: u64 = if now_ms >= self.submitted_at {
            now_ms - self.submitted_at
        } else {
            0
        };
        elapsed >= self.deadline
    }

    /// A second record of the same job.
    pub fn duplicate(&self) -> (twin: PrintJob)
        ensures
            twin@ == self@,
    {
        PrintJob {
            job_id: self.job_id.clone(),
            printer_name: self.printer_name.clone(),
            source_file_path: self.source_file_path.clone(),
            submitted_at: self.submitted_at,
            deadline: self.deadline,
        }
    }
}

/// What the tracker wants done in the outside world.
#[derive(Debug, PartialEq, Eq)]
pub enum Request {
    /// Send the file to the printer as it is, with no filter applied.
    Submit { printer: String, path: String },
    /// Fetch the listing of outstanding jobs.
    ListJobs,
    /// Fetch the listing of completed jobs.
    ListCompleted,
    /// Wait for so many milliseconds.
    Sleep { millis: u64 },
    /// Ask the print subsystem to cancel the job.
    Cancel { job_id: String },
}

/// A `Request` as contracts see it.
pub ghost enum RequestView {
    Submit { printer: Seq<char>, path: Seq<char> },
    ListJobs,
    ListCompleted,
    Sleep { millis: u64 },
    Cancel { job_id: Seq<char> },
}

impl View for Request {
    type V = RequestView;

    open spec fn view(&self) -> RequestView {
        match self {
            Request::Submit { printer, path } => RequestView::Submit {
                printer: printer@,
                path: path@,
            },
            Request::ListJobs => RequestView::ListJobs,
            Request::ListCompleted => RequestView::ListCompleted,
            Request::Sleep { millis } => RequestView::Sleep { millis: *millis },
            Request::Cancel { job_id } => RequestView::Cancel { job_id: job_id@ },
        }
    }
}

/// What came of a `Request`.
#[derive(Debug, PartialEq, Eq)]
pub enum Response {
    /// The submission ended, with success or without.
    SubmitExited { success: bool },
    /// The listing of outstanding jobs.
    JobListing { text: String },
    /// The listing of completed jobs.
    CompletedListing { text: String },
    /// The wait is over.
    Slept,
    /// The cancellation was requested.
    CancelIssued,
}

/// A `Response` as contracts see it.
pub ghost enum ResponseView {
    SubmitExited { success: bool },
    JobListing { text: Seq<char> },
    CompletedListing { text: Seq<char> },
    Slept,
    CancelIssued,
}

impl View for Response {
    type V = ResponseView;

    open spec fn view(&self) -> ResponseView {
        match self {
            Response::SubmitExited { success } => ResponseView::SubmitExited { success: *success },
            Response::JobListing { text } => ResponseView::JobListing { text: text@ },
            Response::CompletedListing { text } => ResponseView::CompletedListing { text: text@ },
            Response::Slept => ResponseView::Slept,
            Response::CancelIssued => ResponseView::CancelIssued,
        }
    }
}

/// What a tracker is up to: it waits for the answer to a request, or it is
/// done.
#[derive(Debug, PartialEq, Eq)]
pub enum Step {
    /// The request that is to be carried out next.
    Ask(Request),
    /// The tracking has ended.
    Done(TrackOutcome),
}

/// A `Step` as contracts see it.
pub ghost enum StepView {
    Ask(RequestView),
    Done(OutcomeView),
}

impl View for Step {
    type V = StepView;

    open spec fn view(&self) -> StepView {
        match self {
            Step::Ask(request) => StepView::Ask(request@),
            Step::Done(outcome) => StepView::Done(outcome@),
        }
    }
}

/// A response that does not answer the request that was made.
#[derive(Clone, Copy, Debug, PartialEq, Eq)]
pub struct OutOfTurn;

/// How far a job has come.
#[derive(Debug, PartialEq, Eq)]
pub enum Phase {
    /// The file is being submitted.
    Submitting,
    /// The file was accepted, and the job's identifier is being looked up.
    Identifying { submitted_at: u64 },
    /// The completed jobs are being fetched.
    Polling(PrintJob),
    /// The job was not among the completed jobs, and the tracker waits.
    Sleeping(PrintJob),
    /// Time is up, and the job is being cancelled.
    Cancelling(PrintJob),
    /// The tracking has ended.
    Finished(TrackOutcome),
}

/// A `Phase` as contracts see it.
pub ghost enum PhaseView {
    Submitting,
    Identifying { submitted_at: u64 },
    Polling(PrintJobView),
    Sleeping(PrintJobView),
    Cancelling(PrintJobView),
    Finished(OutcomeView),
}

impl View for Phase {
    type V = PhaseView;

    open spec fn view(&self) -> PhaseView {
        match self {
            Phase::Submitting => PhaseView::Submitting,
            Phase::Identifying { submitted_at } => PhaseView::Identifying {
                submitted_at: *submitted_at,
            },
            Phase::Polling(job) => PhaseView::Polling(job@),
            Phase::Sleeping(job) => PhaseView::Sleeping(job@),
            Phase::Cancelling(job) => PhaseView::Cancelling(job@),
            Phase::Finished(outcome) => PhaseView::Finished(outcome@),
        }
    }
}

/// The tracker of one job.
#[derive(Debug)]
pub struct JobTracker {
    printer: String,
    path: String,
    timeout_ms: u64,
    phase: Phase,
}

/// A `JobTracker` as contracts see it.
pub ghost struct TrackerView {
    pub printer: Seq<char>,
    pub path: Seq<char>,
    pub timeout_ms: u64,
    pub phase: PhaseView,
}

impl TrackerView {
    /// The tracker of a job that is yet to be submitted.
    pub open spec fn fresh(printer: Seq<char>, path: Seq<char>, timeout_ms: u64) -> TrackerView {
        TrackerView { printer, path, timeout_ms, phase: PhaseView::Submitting }
    }

    /// The tracker in another phase.
    pub open spec fn at(self, phase: PhaseView) -> TrackerView {
        TrackerView { phase, ..self }
    }

    /// The phase in which a job is once it is known and the clock reads
    /// `now`: its completion is looked for while its time is not up, and it is
    /// cancelled once it is.
    pub open spec fn watch(job: PrintJobView, now: u64) -> PhaseView {
        if job.expired(now) {
            PhaseView::Cancelling(job)
        } else {
            PhaseView::Polling(job)
        }
    }

    /// The tracker after `response` has come in with the clock reading `now`,
    /// or nothing where `response` does not answer what the tracker asked
    /// for.
    pub open spec fn next(self, response: ResponseView, now: u64) -> Option<TrackerView> {
        match (self.phase, response) {
            (PhaseView::Submitting, ResponseView::SubmitExited { success }) => Some(
                self.at(
                    if success {
                        PhaseView::Identifying { submitted_at: now }
                    } else {
                        PhaseView::Finished(OutcomeView::SubmissionFailed)
                    },
                ),
            ),
            (PhaseView::Identifying { submitted_at }, ResponseView::JobListing { text }) => Some(
                self.at(
                    match job_id_in(text, self.printer) {
                        Some(job_id) => Self::watch(
                            PrintJobView {
                                job_id,
                                printer_name: self.printer,
                                source_file_path: self.path,
                                submitted_at,
                                deadline: self.timeout_ms,
                            },
                            now,
                        ),
                        None => PhaseView::Finished(OutcomeView::JobIdNotFound),
                    },
                ),
            ),
            (PhaseView::Polling(job), ResponseView::CompletedListing { text }) => Some(
                self.at(
                    if occurs(text, job.job_id) {
                        PhaseView::Finished(OutcomeView::Completed(job.job_id))
                    } else {
                        PhaseView::Sleeping(job)
                    },
                ),
            ),
            (PhaseView::Sleeping(job), ResponseView::Slept) => Some(self.at(Self::watch(job, now))),
            (PhaseView::Cancelling(job), ResponseView::CancelIssued) => Some(
                self.at(PhaseView::Finished(OutcomeView::TimedOut(job.job_id))),
            ),
            _ => None,
        }
    }

    /// The job that the tracker watches, once it is known and until the
    /// tracking has ended.
    pub open spec fn job(self) -> Option<PrintJobView> {
        match self.phase {
            PhaseView::Polling(job) => Some(job),
            PhaseView::Sleeping(job) => Some(job),
            PhaseView::Cancelling(job) => Some(job),
            _ => None,
        }
    }

    /// What holds of every tracker: the job that it watches is the one that
    /// it was made for, on its printer, for its file and with its timeout.
    pub open spec fn wf(self) -> bool {
        self.job() matches Some(job) ==> {
            &&& job.printer_name == self.printer
            &&& job.source_file_path == self.path
            &&& job.deadline == self.timeout_ms
        }
    }

    /// What the tracker is up to.
    pub open spec fn wanted(self) -> StepView {
        match self.phase {
            PhaseView::Submitting => StepView::Ask(
                RequestView::Submit { printer: self.printer, path: self.path },
            ),
            PhaseView::Identifying { .. } => StepView::Ask(RequestView::ListJobs),
            PhaseView::Polling(_) => StepView::Ask(RequestView::ListCompleted),
            PhaseView::Sleeping(_) => StepView::Ask(RequestView::Sleep { millis: POLL_INTERVAL_MS }),
            PhaseView::Cancelling(job) => StepView::Ask(RequestView::Cancel { job_id: job.job_id }),
            PhaseView::Finished(outcome) => StepView::Done(outcome),
        }
    }
}

impl View for JobTracker {
    type V = TrackerView;

    closed spec fn view(&self) -> TrackerView {
        TrackerView {
            printer: self.printer@,
            path: self.path@,
            timeout_ms: self.timeout_ms,
            phase: self.phase@,
        }
    }
}

fn watch(job: PrintJob, now_ms: u64) -> (phase: Phase)
    ensures
        phase@ == TrackerView::watch(job@, now_ms),
{
    if job.expired(now_ms) {
        Phase::Cancelling(job)
    } else {
        Phase::Polling(job)
    }
}

impl JobTracker {
    /// The tracker of a job that prints the file at `path` on `printer` and
    /// is given `timeout_ms` milliseconds from its submission to complete.
    /// Nothing has been asked for yet: what it wants first is the submission.
    pub fn new(printer: String, path: String, timeout_ms: u64) -> (tracker: JobTracker)
        ensures
            tracker@ == TrackerView::fresh(printer@, path@, timeout_ms),
            tracker@.wf(),
    {
        JobTracker { printer, path, timeout_ms, phase: Phase::Submitting }
    }

    /// How far the job has come.
    pub fn phase(&self) -> (phase: &Phase)
        ensures
            phase@ == self@.phase,
    {
        &self.phase
    }

    /// The job that the tracker watches, once it is known and until the
    /// tracking has ended.
    pub fn job(&self) -> (job: Option<PrintJob>)
        ensures
            match self@.job() {
                Some(watched) => job is Some && job->0@ == watched,
                None => job is None,
            },
    {
        match &self.phase {
            Phase::Polling(job) => Some(job.duplicate()),
            Phase::Sleeping(job) => Some(job.duplicate()),
            Phase::Cancelling(job) => Some(job.duplicate()),
            _ => None,
        }
    }

    /// What the tracker is up to: the request that it waits to have
    /// answered, or the outcome once it is done.
    pub fn wanted(&self) -> (step: Step)
        ensures
            step@ == self@.wanted(),
    {
        match &self.phase {
            Phase::Submitting => Step::Ask(
                Request::Submit { printer: self.printer.clone(), path: self.path.clone() },
            ),
            Phase::Identifying { .. } => Step::Ask(Request::ListJobs),
            Phase::Polling(_) => Step::Ask(Request::ListCompleted),
            Phase::Sleeping(_) => Step::Ask(Request::Sleep { millis: POLL_INTERVAL_MS }),
            Phase::Cancelling(job) => Step::Ask(Request::Cancel { job_id: job.job_id.clone() }),
            Phase::Finished(outcome) => Step::Done(
                match outcome {
                    TrackOutcome::Completed(id) => TrackOutcome::Completed(id.clone()),
                    TrackOutcome::TimedOut(id) => TrackOutcome::TimedOut(id.clone()),
                    TrackOutcome::SubmissionFailed => TrackOutcome::SubmissionFailed,
                    TrackOutcome::JobIdNotFound => TrackOutcome::JobIdNotFound,
                },
            ),
        }
    }

    /// Takes in the answer to the request that the tracker made, with the
    /// reading of the clock in milliseconds, and says what the tracker is up
    /// to after it.
    ///
    /// A response that does not answer the request is refused, and the
    /// tracker stays as it was.
    pub fn step(&mut self, response: Response, now_ms: u64) -> (turn: Result<Step, OutOfTurn>)
        ensures
            match old(self)@.next(response@, now_ms) {
                Some(next) => final(self)@ == next && turn is Ok && turn->Ok_0@ == next.wanted(),
                None => final(self)@ == old(self)@ && turn is Err,
            },
            old(self)@.wf() ==> final(self)@.wf(),
    {
        let next: Option<Phase> = match &self.phase {
            Phase::Submitting => match response {
                Response::SubmitExited { success } => Some(
                    if success {
                        Phase::Identifying { submitted_at: now_ms }
                    } else {
                        Phase::Finished(TrackOutcome::SubmissionFailed)
                    },
                ),
                _ => None,
            },
            Phase::Identifying { submitted_at } => match response {
                Response::JobListing { text } => Some(
                    match get_job_id(text.as_str(), self.printer.as_str()) {
                        Some(job_id) => watch(
                            PrintJob {
                                job_id,
                                printer_name: self.printer.clone(),
                                source_file_path: self.path.clone(),
                                submitted_at: *submitted_at,
                                deadline: self.timeout_ms,
                            },
                            now_ms,
                        ),
                        None => Phase::Finished(TrackOutcome::JobIdNotFound),
                    },
                ),
                _ => None,
            },
            Phase::Polling(job) => match response {
                Response::CompletedListing { text } => Some(
                    if check_job_status(text.as_str(), job.job_id.as_str()) {
                        Phase::Finished(TrackOutcome::Completed(job.job_id.clone()))
                    } else {
                        Phase::Sleeping(job.duplicate())
                    },
                ),
                _ => None,
            },
            Phase::Sleeping(job) => match response {
                Response::Slept => Some(watch(job.duplicate(), now_ms)),
                _ => None,
            },
            Phase::Cancelling(job) => match response {
                Response::CancelIssued => Some(
                    Phase::Finished(TrackOutcome::TimedOut(job.job_id.clone())),
                ),
                _ => None,
            },
            Phase::Finished(_) => None,
        };
        match next {
            Some(phase) => {
                self.phase = phase;
                Ok(self.wanted())
            },
            None => Err(OutOfTurn),
        }
    }
}

} // verus!
