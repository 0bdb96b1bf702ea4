//! The batch: the label files of a directory, printed one after the other on
//! one printer, each marked as used once its job has completed.
//!
//! Like the tracker, the batch takes no step in the outside world. It says
//! what it wants done next, an `Action`; the caller does it and hands the
//! `Event` to `Batch::step` together with the reading of a clock.

use vstd::prelude::*;
use crate::queue::{
    affirms, discover_pending, file_views, has_label_extension, is_affirmative, label_filter,
    needs_confirmation, path_views, pending_among, used_path, used_path_of, FileState,
    QueuedFile, QueuedFileView,
};
use crate::tracker::{
    JobTracker, OutOfTurn, OutcomeView, PhaseView, PrintJob, PrintJobView, Request, RequestView,
    Response, ResponseView, Step, StepView, TrackOutcome, TrackerView,
};

verus! {

/// How a batch ended.
#[derive(Clone, Copy, Debug, PartialEq, Eq)]
pub enum Summary {
    /// No file waited to be printed.
    NothingToDo,
    /// The operator did not agree to the batch, and no file was touched.
    Declined,
    /// Every file had its turn. `remind` says whether the operator is to be
    /// reminded to fetch the files anew, which is so for a batch of more than
    /// one file.
    Processed { remind: bool },
}

/// What the batch wants done in the outside world.
#[derive(Debug, PartialEq, Eq)]
pub enum Action {
    /// Ask the operator whether the batch shall be printed.
    Confirm,
    /// Carry out a request of the job that is being tracked.
    Job(Request),
    /// Rename the file at `from` to `to`.
    MarkUsed { from: String, to: String },
    /// Nothing more: the batch has ended.
    Finish(Summary),
}

/// An `Action` as contracts see it.
pub ghost enum ActionView {
    Confirm,
    Job(RequestView),
    MarkUsed { from: Seq<char>, to: Seq<char> },
    Finish(Summary),
}

impl View for Action {
    type V = ActionView;

    open spec fn view(&self) -> ActionView {
        match self {
            Action::Confirm => ActionView::Confirm,
            Action::Job(request) => ActionView::Job(request@),
            Action::MarkUsed { from, to } => ActionView::MarkUsed { from: from@, to: to@ },
            Action::Finish(summary) => ActionView::Finish(*summary),
        }
    }
}

/// What came of an `Action`.
#[derive(Debug, PartialEq, Eq)]
pub enum Event {
    /// The operator's answer to the question.
    Answer { text: String },
    /// What came of the job's request.
    Job(Response),
    /// The file was renamed.
    Renamed,
}

/// An `Event` as contracts see it.
pub ghost enum EventView {
    Answer { text: Seq<char> },
    Job(ResponseView),
    Renamed,
}

impl View for Event {
    type V = EventView;

    open spec fn view(&self) -> EventView {
        match self {
            Event::Answer { text } => EventView::Answer { text: text@ },
            Event::Job(response) => EventView::Job(response@),
            Event::Renamed => EventView::Renamed,
        }
    }
}

#[derive(Debug)]
enum Stage {
    Confirming,
    Tracking(JobTracker),
    Marking { job_id: String },
    Finished(Summary),
}

/// Where a batch stands.
pub ghost enum StageView {
    /// The operator's answer is awaited.
    Confirming,
    /// The job of the file whose turn it is, is being tracked.
    Tracking(TrackerView),
    /// The job with this identifier has completed, and the file whose turn it
    /// is, is being renamed.
    Marking { job_id: Seq<char> },
    /// The batch has ended.
    Finished(Summary),
}

impl View for Stage {
    type V = StageView;

    closed spec fn view(&self) -> StageView {
        match self {
            Stage::Confirming => StageView::Confirming,
            Stage::Tracking(tracker) => StageView::Tracking(tracker@),
            Stage::Marking { job_id } => StageView::Marking { job_id: job_id@ },
            Stage::Finished(summary) => StageView::Finished(*summary),
        }
    }
}

/// What a batch holds. A `Batch` is one of these that is well-formed.
#[derive(Debug)]
struct Inner {
    printer: String,
    timeout_ms: u64,
    files: Vec<QueuedFile>,
    outcomes: Vec<TrackOutcome>,
    stage: Stage,
}

/// A `Batch` as contracts see it.
pub ghost struct BatchView {
    /// The printer that the files are sent to.
    pub printer: Seq<char>,
    /// The time that each job is given to complete, in milliseconds.
    pub timeout_ms: u64,
    /// The files of the batch, in the order in which they have their turn.
    pub files: Seq<QueuedFileView>,
    /// How the jobs of the files that have had their turn ended, in the same
    /// order.
    pub outcomes: Seq<OutcomeView>,
    /// Where the batch stands.
    pub stage: StageView,
}

/// What a vector of outcomes holds.
pub open spec fn outcome_views(outcomes: Seq<TrackOutcome>) -> Seq<OutcomeView> {
    outcomes.map_values(|outcome: TrackOutcome| outcome@)
}

impl BatchView {
    /// The position of the file whose turn it is, which is the number of
    /// files that have had theirs.
    pub open spec fn cursor(self) -> int {
        self.outcomes.len() as int
    }

    /// The batch in another stage.
    pub open spec fn at(self, stage: StageView) -> BatchView {
        BatchView { stage, ..self }
    }

    /// The batch as the next file's turn begins: its job is yet to be
    /// submitted. Where no file is left, the batch has ended.
    pub open spec fn begin(self) -> BatchView {
        if self.cursor() < self.files.len() {
            self.at(
                StageView::Tracking(
                    TrackerView::fresh(
                        self.printer,
                        self.files[self.cursor()].path,
                        self.timeout_ms,
                    ),
                ),
            )
        } else {
            self.at(StageView::Finished(Summary::Processed { remind: self.files.len() > 1 }))
        }
    }

    /// The batch once the job of the file whose turn it is has ended with
    /// `outcome`: the outcome is on record, and the next file's turn begins.
    pub open spec fn settle(self, outcome: OutcomeView) -> BatchView {
        BatchView { outcomes: self.outcomes.push(outcome), ..self }.begin()
    }

    /// The batch with the file whose turn it is marked as used.
    pub open spec fn mark(self) -> BatchView {
        BatchView {
            files: self.files.update(
                self.cursor(),
                QueuedFileView {
                    path: used_path(self.files[self.cursor()].path),
                    state: FileState::Used,
                },
            ),
            ..self
        }
    }

    /// The batch over the files that wait among `entries`, before anything
    /// was done. A batch of several files begins with the question to the
    /// operator, a batch of one file with that file's turn, and a batch of
    /// none has ended.
    pub open spec fn start(
        printer: Seq<char>,
        entries: Seq<Seq<char>>,
        timeout_ms: u64,
    ) -> BatchView {
        let batch = BatchView {
            printer,
            timeout_ms,
            files: pending_among(entries),
            outcomes: Seq::empty(),
            stage: StageView::Confirming,
        };
        if batch.files.len() == 0 {
            batch.at(StageView::Finished(Summary::NothingToDo))
        } else if batch.files.len() > 1 {
            batch
        } else {
            batch.begin()
        }
    }

    /// The batch after `event` has come in with the clock reading `now`, or
    /// nothing where `event` does not answer what the batch asked for.
    pub open spec fn next(self, event: EventView, now: u64) -> Option<BatchView> {
        match (self.stage, event) {
            (StageView::Confirming, EventView::Answer { text }) => Some(
                if affirms(text) {
                    self.begin()
                } else {
                    self.at(StageView::Finished(Summary::Declined))
                },
            ),
            (StageView::Tracking(tracker), EventView::Job(response)) => match tracker.next(
                response,
                now,
            ) {
                Some(tracker) => Some(
                    match tracker.phase {
                        PhaseView::Finished(OutcomeView::Completed(job_id)) => self.at(
                            StageView::Marking { job_id },
                        ),
                        PhaseView::Finished(outcome) => self.settle(outcome),
                        _ => self.at(StageView::Tracking(tracker)),
                    },
                ),
                None => None,
            },
            (StageView::Marking { job_id }, EventView::Renamed) => Some(
                self.mark().settle(OutcomeView::Completed(job_id)),
            ),
            _ => None,
        }
    }

    /// The job that the batch watches on behalf of the file whose turn it
    /// is, once the job is known.
    pub open spec fn job(self) -> Option<PrintJobView> {
        match self.stage {
            StageView::Tracking(tracker) => tracker.job(),
            _ => None,
        }
    }

    /// What the batch is up to. (A well-formed batch holds no tracker that is
    /// done: a job's end ends the file's turn.)
    pub open spec fn wanted(self) -> ActionView {
        match self.stage {
            StageView::Confirming => ActionView::Confirm,
            StageView::Tracking(tracker) => match tracker.wanted() {
                StepView::Ask(request) => ActionView::Job(request),
                StepView::Done(_) => ActionView::Finish(
                    Summary::Processed { remind: self.files.len() > 1 },
                ),
            },
            StageView::Marking { .. } => ActionView::MarkUsed {
                from: self.files[self.cursor()].path,
                to: used_path(self.files[self.cursor()].path),
            },
            StageView::Finished(summary) => ActionView::Finish(summary),
        }
    }

    /// Whether the file at position `k` waits to be printed under a path
    /// that ends in the label extension.
    pub open spec fn waits(self, k: int) -> bool {
        self.files[k].state == FileState::Pending && has_label_extension(self.files[k].path)
    }

    /// What holds of every batch: each file that has had its turn is used if
    /// its job completed and waits as before if it did not; the other files
    /// wait; and while a file has its turn, its job is tracked on the
    /// batch's printer with the batch's timeout and has not ended.
    pub open spec fn wf(self) -> bool {
        &&& self.outcomes.len() <= self.files.len()
        &&& forall|k: int|
            0 <= k < self.outcomes.len() ==> if #[trigger] self.outcomes[k] is Completed {
                self.files[k].state == FileState::Used
            } else {
                self.waits(k)
            }
        &&& forall|k: int| self.outcomes.len() <= k < self.files.len() ==> #[trigger] self.waits(k)
        &&& match self.stage {
            StageView::Confirming => self.outcomes.len() == 0,
            StageView::Tracking(tracker) => {
                &&& self.cursor() < self.files.len()
                &&& tracker.printer == self.printer
                &&& tracker.path == self.files[self.cursor()].path
                &&& tracker.timeout_ms == self.timeout_ms
                &&& tracker.wf()
                &&& !(tracker.phase is Finished)
            },
            StageView::Marking { .. } => self.cursor() < self.files.len(),
            StageView::Finished(_) => true,
        }
    }
}

impl View for Inner {
    type V = BatchView;

    closed spec fn view(&self) -> BatchView {
        BatchView {
            printer: self.printer@,
            timeout_ms: self.timeout_ms,
            files: file_views(self.files@),
            outcomes: outcome_views(self.outcomes@),
            stage: self.stage@,
        }
    }
}

impl Inner {
    /// The batch over no entries, for no printer and with no time for a job:
    /// it has no files and has ended with nothing to do.
    fn ended() -> (inner: Inner)
        ensures
            inner@ == BatchView::start(Seq::<char>::empty(), Seq::<Seq<char>>::empty(), 0),
            inner@.stage == StageView::Finished(Summary::NothingToDo),
            inner@.files.len() == 0,
            inner@.outcomes.len() == 0,
            inner@.wf(),
    {
        let inner = Inner {
            printer: String::new(),
            timeout_ms: 0,
            files: Vec::new(),
            outcomes: Vec::new(),
            stage: Stage::Finished(Summary::NothingToDo),
        };
        proof {
            let none = Seq::<Seq<char>>::empty();
            assert(none.filter(label_filter()) =~= none) by {
                reveal(Seq::filter);
            }
            assert(pending_among(none) =~= Seq::<QueuedFileView>::empty());
            assert(inner@.files =~= Seq::<QueuedFileView>::empty());
            assert(inner@.outcomes =~= Seq::<OutcomeView>::empty());
            assert(inner@.printer =~= Seq::<char>::empty());
        }
        inner
    }

    fn start(printer: String, entries: &Vec<String>, timeout_ms: u64) -> (inner: Inner)
        ensures
            inner@ == BatchView::start(printer@, path_views(entries@), timeout_ms),
            inner@.wf(),
    {
        let files = discover_pending(entries);
        let count: usize = files.len();
        let mut inner = Inner {
            printer,
            timeout_ms,
            files,
            outcomes: Vec::new(),
            stage: Stage::Confirming,
        };
        assert(outcome_views(inner.outcomes@) =~= Seq::<OutcomeView>::empty());
        if count == 0 {
            inner.stage = Stage::Finished(Summary::NothingToDo);
        } else if !needs_confirmation(count) {
            inner.begin();
        }
        proof {
            lemma_start_wf(printer@, path_views(entries@), timeout_ms);
        }
        inner
    }

    fn begin(&mut self)
        requires
            old(self).outcomes.len() <= old(self).files.len(),
        ensures
            final(self)@ == old(self)@.begin(),
    {
        let cursor: usize = self.outcomes.len();
        if cursor < self.files.len() {
            let path = self.files[cursor].path.clone();
            assert(path@ == file_views(self.files@)[cursor as int].path);
            let tracker = JobTracker::new(self.printer.clone(), path, self.timeout_ms);
            self.stage = Stage::Tracking(tracker);
        } else {
            self.stage = Stage::Finished(Summary::Processed { remind: self.files.len() > 1 });
        }
    }

    fn settle(&mut self, outcome: TrackOutcome)
        requires
            old(self).outcomes.len() < old(self).files.len(),
        ensures
            final(self)@ == old(self)@.settle(outcome@),
    {
        let ghost before = self.outcomes@;
        self.outcomes.push(outcome);
        assert(outcome_views(self.outcomes@) =~= outcome_views(before).push(outcome@));
        self.begin();
    }

    fn step(&mut self, event: Event, now_ms: u64) -> (turn: Result<Action, OutOfTurn>)
        requires
            old(self)@.wf(),
        ensures
            final(self)@.wf(),
            match old(self)@.next(event@, now_ms) {
                Some(next) => final(self)@ == next && turn is Ok && turn->Ok_0@ == next.wanted(),
                None => final(self)@ == old(self)@ && turn is Err,
            },
    {
        proof {
            lemma_next_wf(self@, event@, now_ms);
        }
        let accepted: bool = match event {
            Event::Answer { text } => match &self.stage {
                Stage::Confirming => {
                    if is_affirmative(text.as_str()) {
                        self.begin();
                    } else {
                        self.stage = Stage::Finished(Summary::Declined);
                    }
                    true
                },
                _ => false,
            },
            Event::Job(response) => match &mut self.stage {
                Stage::Tracking(tracker) => match tracker.step(response, now_ms) {
                    Ok(Step::Done(TrackOutcome::Completed(job_id))) => {
                        self.stage = Stage::Marking { job_id };
                        true
                    },
                    Ok(Step::Done(outcome)) => {
                        self.settle(outcome);
                        true
                    },
                    Ok(Step::Ask(_)) => true,
                    Err(_) => false,
                },
                _ => false,
            },
            Event::Renamed => match &self.stage {
                Stage::Marking { job_id } => {
                    let job_id = job_id.clone();
                    let cursor: usize = self.outcomes.len();
                    assert(self@.waits(cursor as int));
                    let mut file = QueuedFile {
                        path: self.files[cursor].path.clone(),
                        state: self.files[cursor].state,
                    };
                    match file.mark_used() {
                        Ok(()) => {
                            let ghost before = self.files@;
                            self.files.set(cursor, file);
                            assert(file_views(self.files@) =~= file_views(before).update(
                                cursor as int,
                                file@,
                            ));
                            self.settle(TrackOutcome::Completed(job_id));
                            true
                        },
                        Err(_) => false,
                    }
                },
                _ => false,
            },
        };
        if accepted {
            Ok(self.wanted())
        } else {
            Err(OutOfTurn)
        }
    }

    fn wanted(&self) -> (action: Action)
        requires
            self@.wf(),
        ensures
            action@ == self@.wanted(),
    {
        match &self.stage {
            Stage::Confirming => Action::Confirm,
            Stage::Tracking(tracker) => match tracker.wanted() {
                Step::Ask(request) => Action::Job(request),
                Step::Done(_) => Action::Finish(
                    Summary::Processed { remind: self.files.len() > 1 },
                ),
            },
            Stage::Marking { .. } => {
                let from = self.files[self.outcomes.len()].path.clone();
                assert(from@ == file_views(self.files@)[self.outcomes.len() as int].path);
                assert(self@.waits(self@.cursor()));
                let to = match used_path_of(from.as_str()) {
                    Some(to) => to,
                    None => from.clone(),
                };
                Action::MarkUsed { from, to }
            },
            Stage::Finished(summary) => Action::Finish(*summary),
        }
    }
}

/// A batch of label files on their way through one printer.
#[derive(Debug)]
pub struct Batch {
    inner: Inner,
}

impl View for Batch {
    type V = BatchView;

    closed spec fn view(&self) -> BatchView {
        self.inner@
    }
}

impl Batch {
    #[verifier::type_invariant]
    spec fn well_formed(self) -> bool {
        self.inner@.wf()
    }

    /// The batch that prints on `printer` the label files among `entries`,
    /// the paths of the files of the watched directory, and gives each job
    /// `timeout_ms` milliseconds from its submission to complete.
    pub fn new(printer: String, entries: &Vec<String>, timeout_ms: u64) -> (batch: Batch)
        ensures
            batch@ == BatchView::start(printer@, path_views(entries@), timeout_ms),
            batch@.wf(),
    {
        Batch { inner: Inner::start(printer, entries, timeout_ms) }
    }

    /// The printer that the files are sent to.
    pub fn printer(&self) -> (printer: &str)
        ensures
            printer@ == self@.printer,
    {
        self.inner.printer.as_str()
    }

    /// The time that each job is given to complete, in milliseconds.
    pub fn timeout_ms(&self) -> (timeout_ms: u64)
        ensures
            timeout_ms == self@.timeout_ms,
    {
        self.inner.timeout_ms
    }

    /// The files of the batch, in the order in which they have their turn.
    pub fn files(&self) -> (files: &Vec<QueuedFile>)
        ensures
            file_views(files@) == self@.files,
    {
        &self.inner.files
    }

    /// How the jobs of the files that have had their turn ended, in the
    /// order of the files.
    pub fn outcomes(&self) -> (outcomes: &Vec<TrackOutcome>)
        ensures
            outcome_views(outcomes@) == self@.outcomes,
    {
        &self.inner.outcomes
    }

    /// The job that the batch watches on behalf of the file whose turn it
    /// is, once the job is known.
    pub fn job(&self) -> (job: Option<PrintJob>)
        ensures
            match self@.job() {
                Some(watched) => job is Some && job->0@ == watched,
                None => job is None,
            },
    {
        match &self.inner.stage {
            Stage::Tracking(tracker) => tracker.job(),
            _ => None,
        }
    }

    /// What the batch is up to: the action that it waits to have answered,
    /// or `Finish` once it has ended.
    pub fn wanted(&self) -> (action: Action)
        ensures
            action@ == self@.wanted(),
            self@.wf(),
    {
        proof {
            use_type_invariant(self);
        }
        self.inner.wanted()
    }

    /// Takes in what came of the action that the batch asked for, with the
    /// reading of the clock in milliseconds, and says what the batch is up to
    /// after it.
    ///
    /// An event that does not answer the action is refused, and the batch
    /// stays as it was.
    pub fn step(&mut self, event: Event, now_ms: u64) -> (turn: Result<Action, OutOfTurn>)
        ensures
            match old(self)@.next(event@, now_ms) {
                Some(next) => final(self)@ == next && turn is Ok && turn->Ok_0@ == next.wanted(),
                None => final(self)@ == old(self)@ && turn is Err,
            },
            final(self)@.wf(),
    {
        proof {
            use_type_invariant(&*self);
        }
        let mut inner = Inner::ended();
        std::mem::swap(&mut self.inner, &mut inner);
        let turn = inner.step(event, now_ms);
        self.inner = inner;
        turn
    }
}

/// A well-formed batch stays so whatever comes in.
pub proof fn lemma_next_wf(batch: BatchView, event: EventView, now: u64)
    requires
        batch.wf(),
    ensures
        batch.next(event, now) matches Some(next) ==> next.wf(),
{
    if let Some(next) = batch.next(event, now) {
        assert forall|k: int| next.outcomes.len() <= k < next.files.len() implies #[trigger]
            next.waits(k) by {
            assert(batch.waits(k));
        }
        assert forall|k: int| 0 <= k < next.outcomes.len() implies if #[trigger] next.outcomes[k]
            is Completed {
            next.files[k].state == FileState::Used
        } else {
            next.waits(k)
        } by {
            if k < batch.outcomes.len() {
                assert(batch.outcomes[k] == next.outcomes[k]);
            } else {
                assert(batch.waits(k));
            }
        }
    }
}

/// A batch is well-formed before anything was done.
pub proof fn lemma_start_wf(printer: Seq<char>, entries: Seq<Seq<char>>, timeout_ms: u64)
    ensures
        BatchView::start(printer, entries, timeout_ms).wf(),
{
    let files = pending_among(entries);
    let kept = entries.filter(label_filter());
    assert(files.len() == kept.len());
    assert forall|k: int| 0 <= k < files.len() implies files[k].state == FileState::Pending
        && has_label_extension(files[k].path) by {
        entries.lemma_filter_pred(label_filter(), k);
    }
}

} // verus!
