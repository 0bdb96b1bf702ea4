//! Runs of a batch: what holds of a batch whatever comes in, and in
//! whatever order.
//!
//! A run is a sequence of events, each with the reading of the clock at
//! which it came in. An event that does not answer what the batch asked for
//! is refused and changes nothing.

use vstd::prelude::*;
use crate::batch::{
    lemma_next_wf, lemma_start_wf, ActionView, BatchView, EventView, StageView, Summary,
};
use crate::jobs::{
    is_visible, job_id_in, lemma_job_is_on_first_line_with_name, lemma_unlisted_printer_has_no_job,
};
use crate::queue::{
    affirms, after_printing, lemma_used_files_do_not_wait, used_path, FileState, QueuedFileView,
};
use crate::text::{lines, occurs, tokens};
use crate::tracker::{
    OutcomeView, PhaseView, PrintJobView, RequestView, ResponseView, DEFAULT_TIMEOUT_MS,
    POLL_INTERVAL_MS,
};

verus! {

/// An event and the reading of the clock at which it came in.
pub ghost struct Stamped {
    pub event: EventView,
    pub now: u64,
}

/// What a batch asks for on behalf of one file and must not ask for twice.
pub ghost enum Deed {
    /// The submission of the file.
    Submit,
    /// The cancellation of the file's job.
    Cancel,
    /// The renaming of the file.
    MarkUsed,
}

impl BatchView {
    /// The batch after one event of a run.
    pub open spec fn take(self, stamped: Stamped) -> BatchView {
        match self.next(stamped.event, stamped.now) {
            Some(next) => next,
            None => self,
        }
    }

    /// The batch after a run.
    pub open spec fn after(self, events: Seq<Stamped>) -> BatchView
        decreases events.len(),
    {
        if events.len() == 0 {
            self
        } else {
            self.take(events[0]).after(events.skip(1))
        }
    }

    /// Whether the batch is asking for `deed` on behalf of the file at
    /// position `k`.
    pub open spec fn asks(self, deed: Deed, k: int) -> bool {
        self.cursor() == k && match deed {
            Deed::Submit => self.wanted() matches ActionView::Job(RequestView::Submit { .. }),
            Deed::Cancel => self.wanted() matches ActionView::Job(RequestView::Cancel { .. }),
            Deed::MarkUsed => self.wanted() is MarkUsed,
        }
    }

    /// How many times in a run the batch came to ask for `deed` on behalf
    /// of the file at position `k`.
    pub open spec fn times(self, events: Seq<Stamped>, deed: Deed, k: int) -> nat
        decreases events.len(),
    {
        if events.len() == 0 {
            0
        } else {
            let next = self.take(events[0]);
            let asked: nat = if self.next(events[0].event, events[0].now) is Some && next.asks(
                deed,
                k,
            ) {
                1
            } else {
                0
            };
            asked + next.times(events.skip(1), deed, k)
        }
    }

    /// How many times a batch that begins as `self` asks for `deed` on behalf
    /// of the file at position `k` up to the end of a run: what it asks for
    /// before anything has come in counts too.
    pub open spec fn asked(self, events: Seq<Stamped>, deed: Deed, k: int) -> nat {
        let first: nat = if self.asks(deed, k) {
            1
        } else {
            0
        };
        first + self.times(events, deed, k)
    }

    /// How many times the batch has asked for `deed` on behalf of the file
    /// at position `k`, as the batch itself tells: from the outcome on
    /// record where the file has had its turn, and from where the batch
    /// stands where it has its turn now.
    pub open spec fn on_record(self, deed: Deed, k: int) -> nat {
        if 0 <= k < self.cursor() {
            match deed {
                Deed::Submit => 1,
                Deed::Cancel => if self.outcomes[k] is TimedOut {
                    1
                } else {
                    0
                },
                Deed::MarkUsed => if self.outcomes[k] is Completed {
                    1
                } else {
                    0
                },
            }
        } else if k == self.cursor() {
            match self.stage {
                StageView::Tracking(tracker) => match deed {
                    Deed::Submit => 1,
                    Deed::Cancel => if tracker.phase is Cancelling {
                        1
                    } else {
                        0
                    },
                    Deed::MarkUsed => 0,
                },
                StageView::Marking { .. } => match deed {
                    Deed::Submit => 1,
                    Deed::Cancel => 0,
                    Deed::MarkUsed => 1,
                },
                _ => 0,
            }
        } else {
            0
        }
    }
}

impl BatchView {
    /// Whether the batch is looking for a job among the completed jobs and
    /// `stamped` brings a listing in which the job's identifier stands.
    pub open spec fn shows_job(self, stamped: Stamped) -> bool {
        self.stage matches StageView::Tracking(tracker) && tracker.phase matches PhaseView::Polling(
            job,
        ) && stamped.event matches EventView::Job(ResponseView::CompletedListing { text })
            && occurs(text, job.job_id)
    }

    /// Whether in a run no listing of completed jobs that came in during the
    /// turn of the file at position `k` showed that file's job.
    pub open spec fn unseen(self, events: Seq<Stamped>, k: int) -> bool
        decreases events.len(),
    {
        events.len() == 0 || (!(self.cursor() == k && self.shows_job(events[0])) && self.take(
            events[0],
        ).unseen(events.skip(1), k))
    }

    /// Whether the batch is watching `job` on behalf of the file whose turn
    /// it is: it looks for the job among the completed jobs, waits to look
    /// again, or has asked for its cancellation.
    pub open spec fn watches(self, job: PrintJobView) -> bool {
        self.stage matches StageView::Tracking(tracker) && (tracker.phase == PhaseView::Polling(job)
            || tracker.phase == PhaseView::Sleeping(job) || tracker.phase == PhaseView::Cancelling(
            job,
        ))
    }
}

impl BatchView {
    /// Whether the batch is asking for a look at the completed jobs on
    /// behalf of the file at position `k`.
    pub open spec fn looks(self, k: int) -> bool {
        self.cursor() == k && self.wanted() == ActionView::Job(RequestView::ListCompleted)
    }

    /// How many times in a run the batch came to ask for a look at the
    /// completed jobs on behalf of the file at position `k`.
    pub open spec fn looks_in(self, events: Seq<Stamped>, k: int) -> nat
        decreases events.len(),
    {
        if events.len() == 0 {
            0
        } else {
            let next = self.take(events[0]);
            let asked: nat = if self.next(events[0].event, events[0].now) is Some && next.looks(k) {
                1
            } else {
                0
            };
            asked + next.looks_in(events.skip(1), k)
        }
    }

    /// Whether `stamped` ends a wait of the batch on behalf of the file at
    /// position `k` with another look at the completed jobs.
    pub open spec fn looks_again(self, stamped: Stamped, k: int) -> bool {
        &&& self.cursor() == k
        &&& self.stage matches StageView::Tracking(tracker) && tracker.phase is Sleeping
        &&& stamped.event == EventView::Job(ResponseView::Slept)
        &&& self.take(stamped).looks(k)
    }

    /// Whether in a run the looks at the completed jobs on behalf of the
    /// file at position `k` are at least the pause apart: each wait that
    /// ends with another look ends when the clock reads at least the pause
    /// more than it did when the look before was asked for, which was at
    /// `since` for the first of them.
    pub open spec fn paced(self, events: Seq<Stamped>, k: int, since: u64) -> bool
        decreases events.len(),
    {
        events.len() == 0 || if self.looks_again(events[0], k) {
            &&& events[0].now >= since + POLL_INTERVAL_MS
            &&& self.take(events[0]).paced(events.skip(1), k, events[0].now)
        } else {
            self.take(events[0]).paced(events.skip(1), k, since)
        }
    }

    /// Whether the batch has yet to ask for the first look at the completed
    /// jobs on behalf of the file at position `k`.
    pub open spec fn before_looks(self, k: int) -> bool {
        ||| self.cursor() < k
        ||| self.cursor() == k && match self.stage {
            StageView::Confirming => true,
            StageView::Tracking(tracker) => tracker.phase is Submitting || tracker.phase
                is Identifying,
            _ => false,
        }
    }

    /// Whether the batch is through with looking at the completed jobs on
    /// behalf of the file at position `k`.
    pub open spec fn past_looks(self, k: int) -> bool {
        ||| self.cursor() > k
        ||| self.cursor() == k && match self.stage {
            StageView::Tracking(tracker) => tracker.phase is Cancelling,
            StageView::Marking { .. } => true,
            StageView::Finished(_) => true,
            _ => false,
        }
    }
}

/// One event adds to the record exactly what the batch comes to ask for.
proof fn lemma_record_step(batch: BatchView, stamped: Stamped, deed: Deed, k: int)
    requires
        batch.wf(),
    ensures
        batch.take(stamped).wf(),
        batch.take(stamped).on_record(deed, k) == batch.on_record(deed, k) + (if batch.next(
            stamped.event,
            stamped.now,
        ) is Some && batch.take(stamped).asks(deed, k) {
            1nat
        } else {
            0nat
        }),
{
    lemma_next_wf(batch, stamped.event, stamped.now);
}

/// The record of a batch counts what the batch came to ask for: after a
/// run, the record has grown by the number of times that the batch came to
/// ask for the deed.
pub proof fn lemma_record_counts(batch: BatchView, events: Seq<Stamped>, deed: Deed, k: int)
    requires
        batch.wf(),
    ensures
        batch.after(events).wf(),
        batch.after(events).on_record(deed, k) == batch.on_record(deed, k) + batch.times(
            events,
            deed,
            k,
        ),
    decreases events.len(),
{
    if events.len() > 0 {
        lemma_record_step(batch, events[0], deed, k);
        lemma_record_counts(batch.take(events[0]), events.skip(1), deed, k);
    }
}

/// A run in two parts leads where the second part leads from where the
/// first part led, and the batch comes to ask for a deed in it as often as
/// in the two parts together.
pub proof fn lemma_run_in_two_parts(
    batch: BatchView,
    first: Seq<Stamped>,
    second: Seq<Stamped>,
    deed: Deed,
    k: int,
)
    ensures
        batch.after(first + second) == batch.after(first).after(second),
        batch.times(first + second, deed, k) == batch.times(first, deed, k) + batch.after(
            first,
        ).times(second, deed, k),
    decreases first.len(),
{
    if first.len() == 0 {
        assert(first + second =~= second);
    } else {
        assert((first + second).skip(1) =~= first.skip(1) + second);
        lemma_run_in_two_parts(batch.take(first[0]), first.skip(1), second, deed, k);
    }
}

/// A run changes neither the printer nor the timeout of a batch.
pub proof fn lemma_settings_stay(batch: BatchView, events: Seq<Stamped>)
    ensures
        batch.after(events).printer == batch.printer,
        batch.after(events).timeout_ms == batch.timeout_ms,
    decreases events.len(),
{
    if events.len() > 0 {
        lemma_settings_stay(batch.take(events[0]), events.skip(1));
    }
}

/// A run changes neither the number of files of a batch nor the fact that
/// it is well-formed, and no file has its turn a second time.
pub proof fn lemma_run_keeps_shape(batch: BatchView, events: Seq<Stamped>)
    requires
        batch.wf(),
    ensures
        batch.after(events).wf(),
        batch.after(events).files.len() == batch.files.len(),
        batch.after(events).cursor() >= batch.cursor(),
    decreases events.len(),
{
    if events.len() > 0 {
        lemma_next_wf(batch, events[0].event, events[0].now);
        lemma_run_keeps_shape(batch.take(events[0]), events.skip(1));
    }
}

/// A run leaves alone the files that have had their turn, and the outcomes
/// on record.
pub proof fn lemma_turns_are_final(batch: BatchView, events: Seq<Stamped>, k: int)
    requires
        batch.wf(),
        0 <= k < batch.cursor(),
    ensures
        batch.after(events).cursor() >= batch.cursor(),
        batch.after(events).outcomes[k] == batch.outcomes[k],
        batch.after(events).files[k] == batch.files[k],
    decreases events.len(),
{
    if events.len() > 0 {
        lemma_next_wf(batch, events[0].event, events[0].now);
        lemma_turns_are_final(batch.take(events[0]), events.skip(1), k);
    }
}

/// A run leaves a file as it was unless the file's job came to be on record
/// as completed in it.
pub proof fn lemma_waiting_files_stay(batch: BatchView, events: Seq<Stamped>, k: int)
    requires
        batch.wf(),
        0 <= k < batch.files.len(),
    ensures
        ({
            let end = batch.after(events);
            !(batch.cursor() <= k < end.cursor() && end.outcomes[k] is Completed) ==> end.files[k]
                == batch.files[k]
        }),
    decreases events.len(),
{
    if events.len() > 0 {
        lemma_next_wf(batch, events[0].event, events[0].now);
        let next = batch.take(events[0]);
        lemma_run_keeps_shape(next, events.skip(1));
        lemma_waiting_files_stay(next, events.skip(1), k);
        if k < next.cursor() {
            lemma_turns_are_final(next, events.skip(1), k);
        }
    }
}

/// A batch that has ended stays as it is and asks for nothing more.
pub proof fn lemma_finished_stays(batch: BatchView, events: Seq<Stamped>, deed: Deed, k: int)
    requires
        batch.stage is Finished,
    ensures
        batch.after(events) == batch,
        batch.times(events, deed, k) == 0,
    decreases events.len(),
{
    if events.len() > 0 {
        lemma_finished_stays(batch, events.skip(1), deed, k);
    }
}

/// A batch that renames a file stays there until the file is renamed; after that
/// the job is on record as completed and the file is used.
pub proof fn lemma_marking_runs(batch: BatchView, events: Seq<Stamped>)
    requires
        batch.wf(),
        batch.stage is Marking,
    ensures
        ({
            let k = batch.cursor();
            let end = batch.after(events);
            ||| end == batch
            ||| {
                &&& end.cursor() > k
                &&& end.outcomes[k] == OutcomeView::Completed(batch.stage->job_id)
                &&& end.files[k] == (QueuedFileView {
                    path: used_path(batch.files[k].path),
                    state: FileState::Used,
                })
            }
        }),
    decreases events.len(),
{
    if events.len() > 0 {
        lemma_next_wf(batch, events[0].event, events[0].now);
        let next = batch.take(events[0]);
        if next == batch {
            lemma_marking_runs(batch, events.skip(1));
        } else {
            lemma_turns_are_final(next, events.skip(1), batch.cursor());
        }
    }
}

/// A batch that watches a job whose completion no listing shows goes on
/// watching it until the job is cancelled; after that the job is on record as
/// timed out and the file is as it was.
pub proof fn lemma_unseen_runs(batch: BatchView, events: Seq<Stamped>, job: PrintJobView)
    requires
        batch.wf(),
        batch.watches(job),
        batch.unseen(events, batch.cursor()),
    ensures
        ({
            let k = batch.cursor();
            let end = batch.after(events);
            ||| end.cursor() == k && end.watches(job)
            ||| {
                &&& end.cursor() > k
                &&& end.outcomes[k] == OutcomeView::TimedOut(job.job_id)
                &&& end.files[k] == batch.files[k]
            }
        }),
    decreases events.len(),
{
    if events.len() > 0 {
        lemma_next_wf(batch, events[0].event, events[0].now);
        let next = batch.take(events[0]);
        if next.cursor() == batch.cursor() {
            lemma_unseen_runs(next, events.skip(1), job);
        } else {
            lemma_turns_are_final(next, events.skip(1), batch.cursor());
        }
    }
}

/// Whatever comes in, and in whatever order: for each file, the batch asks
/// for its submission, for the cancellation of its job and for its renaming
/// as often as the batch's own record says, which is never more than once.
/// Once a file has had its turn, it was submitted once, its job was
/// cancelled once if it timed out and never otherwise, and it was renamed
/// once if its job completed and never otherwise.
pub proof fn law_deeds_are_on_record(
    printer: Seq<char>,
    entries: Seq<Seq<char>>,
    timeout_ms: u64,
    events: Seq<Stamped>,
    deed: Deed,
    k: int,
)
    ensures
        ({
            let start = BatchView::start(printer, entries, timeout_ms);
            let end = start.after(events);
            &&& end.wf()
            &&& start.asked(events, deed, k) == end.on_record(deed, k)
            &&& start.asked(events, deed, k) <= 1
        }),
{
    let start = BatchView::start(printer, entries, timeout_ms);
    lemma_start_wf(printer, entries, timeout_ms);
    lemma_record_counts(start, events, deed, k);
}

/// Whatever comes in, a file of the batch is used if and only if it has had
/// its turn and its job is on record as completed; every other file is as it
/// was found, waiting.
pub proof fn law_used_only_after_completion(
    printer: Seq<char>,
    entries: Seq<Seq<char>>,
    timeout_ms: u64,
    events: Seq<Stamped>,
    k: int,
)
    requires
        0 <= k < BatchView::start(printer, entries, timeout_ms).files.len(),
    ensures
        ({
            let start = BatchView::start(printer, entries, timeout_ms);
            let end = start.after(events);
            let completed = k < end.cursor() && end.outcomes[k] is Completed;
            &&& end.files.len() == start.files.len()
            &&& start.files[k].state == FileState::Pending
            &&& end.files[k].state == FileState::Used <==> completed
            &&& !completed ==> end.files[k] == start.files[k]
        }),
{
    let start = BatchView::start(printer, entries, timeout_ms);
    lemma_start_wf(printer, entries, timeout_ms);
    lemma_run_keeps_shape(start, events);
    lemma_waiting_files_stay(start, events, k);
    assert(start.waits(k));
}

/// Where the operator is asked and the answer is anything but a yes, the
/// batch has ended: in the whole run no file is submitted, no job cancelled
/// and no file renamed, and every file is as it was found.
pub proof fn law_declined_batch_touches_nothing(
    printer: Seq<char>,
    entries: Seq<Seq<char>>,
    timeout_ms: u64,
    earlier: Seq<Stamped>,
    answer: Seq<char>,
    now: u64,
    later: Seq<Stamped>,
    deed: Deed,
    k: int,
)
    requires
        BatchView::start(printer, entries, timeout_ms).after(earlier).stage is Confirming,
        !affirms(answer),
    ensures
        ({
            let start = BatchView::start(printer, entries, timeout_ms);
            let said = Stamped { event: EventView::Answer { text: answer }, now };
            let run = earlier + seq![said] + later;
            let end = start.after(run);
            &&& end.stage == StageView::Finished(Summary::Declined)
            &&& end.files == start.files
            &&& end.outcomes.len() == 0
            &&& start.asked(run, deed, k) == 0
        }),
{
    let start = BatchView::start(printer, entries, timeout_ms);
    let batch = start.after(earlier);
    let said = Stamped { event: EventView::Answer { text: answer }, now };
    let run = earlier + seq![said] + later;
    let end = start.after(run);
    lemma_start_wf(printer, entries, timeout_ms);
    lemma_record_counts(start, earlier, deed, k);
    assert(run =~= earlier + (seq![said] + later));
    lemma_run_in_two_parts(start, earlier, seq![said] + later, deed, k);
    assert((seq![said] + later).skip(1) =~= later);
    lemma_finished_stays(batch.take(said), later, deed, k);
    law_deeds_are_on_record(printer, entries, timeout_ms, run, deed, k);
    lemma_run_keeps_shape(start, run);
    assert forall|j: int| 0 <= j < start.files.len() implies end.files[j] == start.files[j] by {
        lemma_waiting_files_stay(start, run, j);
    }
    assert(end.files =~= start.files);
}

/// Where a file was accepted and the printer's name does not stand in the
/// listing of outstanding jobs that comes in, the file's turn ends with
/// `JobIdNotFound`. In the whole run the file is submitted once, its
/// renaming and the cancellation of a job are never asked for, and the file
/// is as it was found, waiting.
pub proof fn law_unlisted_printer_leaves_file_pending(
    printer: Seq<char>,
    entries: Seq<Seq<char>>,
    timeout_ms: u64,
    earlier: Seq<Stamped>,
    listing: Seq<char>,
    now: u64,
    later: Seq<Stamped>,
)
    requires
        BatchView::start(printer, entries, timeout_ms).after(earlier).stage
            matches StageView::Tracking(tracker) && tracker.phase is Identifying,
        !occurs(listing, printer),
    ensures
        ({
            let start = BatchView::start(printer, entries, timeout_ms);
            let k = start.after(earlier).cursor();
            let found = Stamped {
                event: EventView::Job(ResponseView::JobListing { text: listing }),
                now,
            };
            let run = earlier + seq![found] + later;
            let end = start.after(run);
            &&& end.cursor() > k
            &&& end.outcomes[k] == OutcomeView::JobIdNotFound
            &&& end.files[k] == start.files[k]
            &&& end.files[k].state == FileState::Pending
            &&& start.asked(run, Deed::Submit, k) == 1
            &&& start.asked(run, Deed::Cancel, k) == 0
            &&& start.asked(run, Deed::MarkUsed, k) == 0
        }),
{
    let start = BatchView::start(printer, entries, timeout_ms);
    let batch = start.after(earlier);
    let k = batch.cursor();
    let found = Stamped { event: EventView::Job(ResponseView::JobListing { text: listing }), now };
    let run = earlier + seq![found] + later;
    lemma_start_wf(printer, entries, timeout_ms);
    lemma_run_keeps_shape(start, earlier);
    assert(batch.printer == printer) by {
        lemma_settings_stay(start, earlier);
    }
    assert(run =~= earlier + (seq![found] + later));
    lemma_run_in_two_parts(start, earlier, seq![found] + later, Deed::Submit, k);
    assert((seq![found] + later).skip(1) =~= later);
    lemma_unlisted_printer_has_no_job(listing, printer);
    lemma_next_wf(batch, found.event, now);
    lemma_turns_are_final(batch.take(found), later, k);
    lemma_waiting_files_stay(start, run, k);
    law_deeds_are_on_record(printer, entries, timeout_ms, run, Deed::Submit, k);
    law_deeds_are_on_record(printer, entries, timeout_ms, run, Deed::Cancel, k);
    law_deeds_are_on_record(printer, entries, timeout_ms, run, Deed::MarkUsed, k);
    assert(start.waits(k));
}

/// Where the batch looks for a job among the completed jobs, which it does
/// only while the job's time is not up, and the listing that comes in shows
/// the job: the batch asks for the file's renaming. In the whole run it asks
/// for that once and never for the job's cancellation. Once the file is
/// renamed, the job is on record as completed and the file is used, under
/// the path with the marker in place of the label extension.
pub proof fn law_completed_job_marks_file_once(
    printer: Seq<char>,
    entries: Seq<Seq<char>>,
    timeout_ms: u64,
    earlier: Seq<Stamped>,
    job: PrintJobView,
    listing: Seq<char>,
    now: u64,
    later: Seq<Stamped>,
)
    requires
        BatchView::start(printer, entries, timeout_ms).after(earlier).stage
            matches StageView::Tracking(tracker) && tracker.phase == PhaseView::Polling(job),
        occurs(listing, job.job_id),
    ensures
        ({
            let start = BatchView::start(printer, entries, timeout_ms);
            let batch = start.after(earlier);
            let k = batch.cursor();
            let seen = Stamped {
                event: EventView::Job(ResponseView::CompletedListing { text: listing }),
                now,
            };
            let run = earlier + seq![seen] + later;
            let end = start.after(run);
            &&& batch.take(seen).wanted() == (ActionView::MarkUsed {
                from: start.files[k].path,
                to: used_path(start.files[k].path),
            })
            &&& start.asked(run, Deed::MarkUsed, k) == 1
            &&& start.asked(run, Deed::Cancel, k) == 0
            &&& start.asked(run, Deed::Submit, k) == 1
            &&& end.cursor() > k ==> {
                &&& end.outcomes[k] == OutcomeView::Completed(job.job_id)
                &&& end.files[k] == (QueuedFileView {
                    path: used_path(start.files[k].path),
                    state: FileState::Used,
                })
            }
        }),
{
    let start = BatchView::start(printer, entries, timeout_ms);
    let batch = start.after(earlier);
    let k = batch.cursor();
    let seen = Stamped {
        event: EventView::Job(ResponseView::CompletedListing { text: listing }),
        now,
    };
    let run = earlier + seq![seen] + later;
    lemma_start_wf(printer, entries, timeout_ms);
    lemma_run_keeps_shape(start, earlier);
    lemma_waiting_files_stay(start, earlier, k);
    assert(run =~= earlier + (seq![seen] + later));
    lemma_run_in_two_parts(start, earlier, seq![seen] + later, Deed::Submit, k);
    assert((seq![seen] + later).skip(1) =~= later);
    lemma_next_wf(batch, seen.event, now);
    lemma_marking_runs(batch.take(seen), later);
    law_deeds_are_on_record(printer, entries, timeout_ms, run, Deed::Submit, k);
    law_deeds_are_on_record(printer, entries, timeout_ms, run, Deed::Cancel, k);
    law_deeds_are_on_record(printer, entries, timeout_ms, run, Deed::MarkUsed, k);
}

/// Where a file was accepted and the listing of outstanding jobs that comes
/// in shows a job on the printer, the batch watches that job, with the time
/// of the file's acceptance as the job's submission and the batch's timeout
/// as its deadline. The clock decides what the batch does first: while the
/// job's time is not up it looks at the completed jobs, and once the time is
/// up it asks for the job's cancellation.
pub proof fn law_clock_decides_after_identification(
    printer: Seq<char>,
    entries: Seq<Seq<char>>,
    timeout_ms: u64,
    earlier: Seq<Stamped>,
    submitted_at: u64,
    listing: Seq<char>,
    job_id: Seq<char>,
    now: u64,
)
    requires
        BatchView::start(printer, entries, timeout_ms).after(earlier).stage
            matches StageView::Tracking(tracker) && tracker.phase == (PhaseView::Identifying {
            submitted_at,
        }),
        job_id_in(listing, printer) == Some(job_id),
    ensures
        ({
            let start = BatchView::start(printer, entries, timeout_ms);
            let batch = start.after(earlier);
            let found = Stamped {
                event: EventView::Job(ResponseView::JobListing { text: listing }),
                now,
            };
            let job = PrintJobView {
                job_id,
                printer_name: printer,
                source_file_path: start.files[batch.cursor()].path,
                submitted_at,
                deadline: timeout_ms,
            };
            &&& batch.take(found).job() == Some(job)
            &&& !job.expired(now) ==> batch.take(found).wanted() == ActionView::Job(
                RequestView::ListCompleted,
            )
            &&& job.expired(now) ==> batch.take(found).wanted() == ActionView::Job(
                RequestView::Cancel { job_id },
            )
        }),
{
    let start = BatchView::start(printer, entries, timeout_ms);
    lemma_start_wf(printer, entries, timeout_ms);
    lemma_run_keeps_shape(start, earlier);
    lemma_settings_stay(start, earlier);
    lemma_waiting_files_stay(start, earlier, start.after(earlier).cursor());
}

/// Where the batch has waited, the clock decides what it does next: while
/// the job's time is not up it looks at the completed jobs again, and once
/// the time is up it asks for the job's cancellation instead. Once the
/// cancellation is asked for, the job is on record as timed out and the next
/// file has its turn.
pub proof fn law_clock_decides_after_a_wait(
    printer: Seq<char>,
    entries: Seq<Seq<char>>,
    timeout_ms: u64,
    earlier: Seq<Stamped>,
    job: PrintJobView,
    now: u64,
    afterwards: u64,
)
    requires
        BatchView::start(printer, entries, timeout_ms).after(earlier).stage
            matches StageView::Tracking(tracker) && tracker.phase == PhaseView::Sleeping(job),
    ensures
        ({
            let batch = BatchView::start(printer, entries, timeout_ms).after(earlier);
            let k = batch.cursor();
            let woken = batch.take(Stamped { event: EventView::Job(ResponseView::Slept), now });
            let end = woken.take(
                Stamped { event: EventView::Job(ResponseView::CancelIssued), now: afterwards },
            );
            &&& job.deadline == timeout_ms
            &&& !job.expired(now) ==> woken.wanted() == ActionView::Job(RequestView::ListCompleted)
            &&& job.expired(now) ==> {
                &&& woken.wanted() == ActionView::Job(RequestView::Cancel { job_id: job.job_id })
                &&& end.cursor() == k + 1
                &&& end.outcomes[k] == OutcomeView::TimedOut(job.job_id)
                &&& end.files == batch.files
            }
        }),
{
    let start = BatchView::start(printer, entries, timeout_ms);
    lemma_start_wf(printer, entries, timeout_ms);
    lemma_run_keeps_shape(start, earlier);
    lemma_settings_stay(start, earlier);
}

/// A run that leaves the batch before its first look on behalf of a file
/// began there, and the batch asked for no look on behalf of the file in it.
pub proof fn lemma_no_looks_before(batch: BatchView, events: Seq<Stamped>, k: int)
    requires
        batch.wf(),
        batch.after(events).before_looks(k),
    ensures
        batch.before_looks(k),
        batch.looks_in(events, k) == 0,
    decreases events.len(),
{
    if events.len() > 0 {
        lemma_next_wf(batch, events[0].event, events[0].now);
        lemma_no_looks_before(batch.take(events[0]), events.skip(1), k);
    }
}

/// A batch that is through with looking on behalf of a file asks for no
/// further look on its behalf.
pub proof fn lemma_no_looks_after(batch: BatchView, events: Seq<Stamped>, k: int)
    requires
        batch.wf(),
        batch.past_looks(k),
    ensures
        batch.looks_in(events, k) == 0,
    decreases events.len(),
{
    if events.len() > 0 {
        lemma_next_wf(batch, events[0].event, events[0].now);
        lemma_no_looks_after(batch.take(events[0]), events.skip(1), k);
    }
}

/// A batch that watches a job whose time was not up when the last look was
/// asked for, and whose looks are at least the pause apart, asks for as many
/// further looks as pauses fit into what was left of the job's time.
pub proof fn lemma_paced_looks(
    batch: BatchView,
    events: Seq<Stamped>,
    job: PrintJobView,
    since: u64,
)
    requires
        batch.wf(),
        batch.stage matches StageView::Tracking(tracker) && (tracker.phase == PhaseView::Polling(job)
            || tracker.phase == PhaseView::Sleeping(job)),
        since >= job.submitted_at,
        !job.expired(since),
        batch.paced(events, batch.cursor(), since),
    ensures
        POLL_INTERVAL_MS * batch.looks_in(events, batch.cursor()) <= job.deadline - 1 - (since
            - job.submitted_at),
    decreases events.len(),
{
    if events.len() > 0 {
        let k = batch.cursor();
        lemma_next_wf(batch, events[0].event, events[0].now);
        let next = batch.take(events[0]);
        if next.past_looks(k) {
            lemma_no_looks_after(next, events.skip(1), k);
        } else if batch.looks_again(events[0], k) {
            lemma_paced_looks(next, events.skip(1), job, events[0].now);
        } else {
            lemma_paced_looks(next, events.skip(1), job, since);
        }
    }
}

/// Where a file was accepted, the clock has not run backwards since, and the
/// looks at the completed jobs on the file's behalf are at least the pause
/// apart: in the whole run the batch asks for no more looks than pauses
/// begin within the job's time, which for a minute's time and a second's
/// pause is sixty. It asks for at least one where the listing of outstanding
/// jobs shows a job on the printer whose time is not up.
pub proof fn law_looks_are_bounded(
    printer: Seq<char>,
    entries: Seq<Seq<char>>,
    timeout_ms: u64,
    earlier: Seq<Stamped>,
    submitted_at: u64,
    listing: Seq<char>,
    now: u64,
    later: Seq<Stamped>,
)
    requires
        BatchView::start(printer, entries, timeout_ms).after(earlier).stage
            matches StageView::Tracking(tracker) && tracker.phase == (PhaseView::Identifying {
            submitted_at,
        }),
        now >= submitted_at,
        ({
            let batch = BatchView::start(printer, entries, timeout_ms).after(earlier);
            let found = Stamped {
                event: EventView::Job(ResponseView::JobListing { text: listing }),
                now,
            };
            batch.take(found).paced(later, batch.cursor(), now)
        }),
    ensures
        ({
            let start = BatchView::start(printer, entries, timeout_ms);
            let k = start.after(earlier).cursor();
            let found = Stamped {
                event: EventView::Job(ResponseView::JobListing { text: listing }),
                now,
            };
            let run = earlier + seq![found] + later;
            let looks = start.looks_in(run, k);
            &&& !start.looks(k)
            &&& POLL_INTERVAL_MS * looks < timeout_ms + POLL_INTERVAL_MS
            &&& timeout_ms == DEFAULT_TIMEOUT_MS ==> looks <= 60
            &&& job_id_in(listing, printer) is Some && now - submitted_at < timeout_ms ==> looks >= 1
        }),
{
    let start = BatchView::start(printer, entries, timeout_ms);
    let batch = start.after(earlier);
    let k = batch.cursor();
    let found = Stamped { event: EventView::Job(ResponseView::JobListing { text: listing }), now };
    let run = earlier + seq![found] + later;
    let next = batch.take(found);
    lemma_start_wf(printer, entries, timeout_ms);
    lemma_run_keeps_shape(start, earlier);
    lemma_settings_stay(start, earlier);
    lemma_no_looks_before(start, earlier, k);
    assert(run =~= earlier + (seq![found] + later));
    lemma_looks_in_two_parts(start, earlier, seq![found] + later, k);
    assert((seq![found] + later).skip(1) =~= later);
    lemma_next_wf(batch, found.event, now);
    if next.past_looks(k) {
        lemma_no_looks_after(next, later, k);
    } else {
        let job = next.job()->0;
        lemma_paced_looks(next, later, job, now);
    }
}

/// In a run in two parts the batch comes to ask for a look as often as in
/// the two parts together.
pub proof fn lemma_looks_in_two_parts(
    batch: BatchView,
    first: Seq<Stamped>,
    second: Seq<Stamped>,
    k: int,
)
    ensures
        batch.looks_in(first + second, k) == batch.looks_in(first, k) + batch.after(
            first,
        ).looks_in(second, k),
    decreases first.len(),
{
    if first.len() == 0 {
        assert(first + second =~= second);
    } else {
        assert((first + second).skip(1) =~= first.skip(1) + second);
        lemma_looks_in_two_parts(batch.take(first[0]), first.skip(1), second, k);
    }
}

/// Where a file was accepted and the printer's name holds a character that
/// is not white space: the file's turn ends with `JobIdNotFound` exactly
/// where no line of the listing of outstanding jobs that comes in holds the
/// printer's name. Otherwise the batch watches the job whose identifier is
/// the first token of the first line that holds the name.
pub proof fn law_job_is_found_exactly_where_listed(
    printer: Seq<char>,
    entries: Seq<Seq<char>>,
    timeout_ms: u64,
    earlier: Seq<Stamped>,
    listing: Seq<char>,
    now: u64,
)
    requires
        BatchView::start(printer, entries, timeout_ms).after(earlier).stage
            matches StageView::Tracking(tracker) && tracker.phase is Identifying,
        is_visible(printer),
    ensures
        ({
            let batch = BatchView::start(printer, entries, timeout_ms).after(earlier);
            let k = batch.cursor();
            let next = batch.take(
                Stamped { event: EventView::Job(ResponseView::JobListing { text: listing }), now },
            );
            let unlisted = forall|j: int|
                0 <= j < lines(listing).len() ==> !occurs(#[trigger] lines(listing)[j], printer);
            &&& unlisted <==> next.cursor() == k + 1 && next.outcomes[k]
                == OutcomeView::JobIdNotFound
            &&& !unlisted ==> exists|j: int|
                {
                    &&& 0 <= j < lines(listing).len()
                    &&& occurs(#[trigger] lines(listing)[j], printer)
                    &&& forall|i: int| 0 <= i < j ==> !occurs(#[trigger] lines(listing)[i], printer)
                    &&& tokens(lines(listing)[j]).len() > 0
                    &&& next.cursor() == k
                    &&& next.job() is Some
                    &&& next.job()->0.job_id == tokens(lines(listing)[j])[0]
                }
        }),
{
    let start = BatchView::start(printer, entries, timeout_ms);
    lemma_start_wf(printer, entries, timeout_ms);
    lemma_run_keeps_shape(start, earlier);
    lemma_settings_stay(start, earlier);
    lemma_job_is_on_first_line_with_name(listing, printer);
}

/// Where the batch watches a job and no listing of completed jobs that
/// comes in during the file's turn shows it: once the file's turn is over,
/// the job is on record as timed out. In the whole run the job's
/// cancellation was asked for once and the file's renaming never, and the
/// file is as it was found, waiting.
pub proof fn law_unseen_job_is_cancelled_once(
    printer: Seq<char>,
    entries: Seq<Seq<char>>,
    timeout_ms: u64,
    earlier: Seq<Stamped>,
    job: PrintJobView,
    events: Seq<Stamped>,
)
    requires
        ({
            let batch = BatchView::start(printer, entries, timeout_ms).after(earlier);
            &&& batch.stage matches StageView::Tracking(tracker) && (tracker.phase
                == PhaseView::Polling(job) || tracker.phase == PhaseView::Sleeping(job))
            &&& batch.unseen(events, batch.cursor())
            &&& batch.after(events).cursor() > batch.cursor()
        }),
    ensures
        ({
            let start = BatchView::start(printer, entries, timeout_ms);
            let k = start.after(earlier).cursor();
            let end = start.after(earlier + events);
            &&& end.outcomes[k] == OutcomeView::TimedOut(job.job_id)
            &&& start.asked(earlier + events, Deed::Cancel, k) == 1
            &&& start.asked(earlier + events, Deed::MarkUsed, k) == 0
            &&& start.asked(earlier + events, Deed::Submit, k) == 1
            &&& end.files[k] == start.files[k]
            &&& end.files[k].state == FileState::Pending
        }),
{
    let start = BatchView::start(printer, entries, timeout_ms);
    let batch = start.after(earlier);
    let k = batch.cursor();
    let run = earlier + events;
    lemma_start_wf(printer, entries, timeout_ms);
    lemma_run_keeps_shape(start, earlier);
    lemma_waiting_files_stay(start, earlier, k);
    lemma_run_in_two_parts(start, earlier, events, Deed::Submit, k);
    lemma_unseen_runs(batch, events, job);
    lemma_waiting_files_stay(start, run, k);
    law_deeds_are_on_record(printer, entries, timeout_ms, run, Deed::Submit, k);
    law_deeds_are_on_record(printer, entries, timeout_ms, run, Deed::Cancel, k);
    law_deeds_are_on_record(printer, entries, timeout_ms, run, Deed::MarkUsed, k);
    assert(start.waits(k));
}

/// Printing a directory a second time, after a first time in which every
/// label file was marked as used, submits nothing: no file waits, and the
/// batch has ended before anything comes in.
pub proof fn law_second_run_submits_nothing(
    printer: Seq<char>,
    entries: Seq<Seq<char>>,
    timeout_ms: u64,
    events: Seq<Stamped>,
    k: int,
)
    ensures
        ({
            let again = BatchView::start(printer, after_printing(entries), timeout_ms);
            &&& again.files.len() == 0
            &&& again.stage == StageView::Finished(Summary::NothingToDo)
            &&& again.after(events) == again
            &&& again.asked(events, Deed::Submit, k) == 0
        }),
{
    lemma_used_files_do_not_wait(entries);
    let again = BatchView::start(printer, after_printing(entries), timeout_ms);
    lemma_finished_stays(again, events, Deed::Submit, k);
}

} // verus!
