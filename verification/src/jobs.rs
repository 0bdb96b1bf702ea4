//! Reading the print subsystem's job listings: which job a printer was
//! given, and whether a job has completed.

use vstd::prelude::*;
use crate::text::{
    chars_of, is_space, lemma_lines_within, lemma_occurs_within, lemma_word_makes_a_token, lines,
    occurs, occurs_at, occurs_in, split_lines, split_whitespace, tokens, views,
};

verus! {

/// Whether a line of the outstanding-jobs listing is about a job on
/// `printer`: it holds the printer's name somewhere, and it has a first
/// token, which is the job's identifier. (A line that holds the name has one
/// unless the name is empty or all white space.)
pub open spec fn is_job_line(line: Seq<char>, printer: Seq<char>) -> bool {
    occurs(line, printer) && tokens(line).len() > 0
}

/// The position of the first line at or after `at` that is about a job on
/// `printer`.
pub open spec fn first_job_line(all: Seq<Seq<char>>, printer: Seq<char>, at: int) -> Option<int>
    decreases all.len() - at,
{
    if at >= all.len() {
        None
    } else if is_job_line(all[at], printer) {
        Some(at)
    } else {
        first_job_line(all, printer, at + 1)
    }
}

/// The identifier of the job that the outstanding-jobs listing shows for
/// `printer`: the first token of the first line that is about a job on it.
pub open spec fn job_id_in(listing: Seq<char>, printer: Seq<char>) -> Option<Seq<char>> {
    match first_job_line(lines(listing), printer, 0) {
        Some(k) => Some(tokens(lines(listing)[k])[0]),
        None => None,
    }
}

proof fn lemma_no_job_line(all: Seq<Seq<char>>, printer: Seq<char>, at: int)
    requires
        0 <= at,
        forall|k: int| at <= k < all.len() ==> !occurs(#[trigger] all[k], printer),
    ensures
        first_job_line(all, printer, at) is None,
    decreases all.len() - at,
{
    if at < all.len() {
        lemma_no_job_line(all, printer, at + 1);
    }
}

/// A listing in which the printer's name does not stand shows no job for
/// the printer.
pub proof fn lemma_unlisted_printer_has_no_job(listing: Seq<char>, printer: Seq<char>)
    requires
        !occurs(listing, printer),
    ensures
        job_id_in(listing, printer) is None,
{
    let all = lines(listing);
    assert forall|k: int| 0 <= k < all.len() implies !occurs(#[trigger] all[k], printer) by {
        lemma_lines_within(listing, k);
        if occurs(all[k], printer) {
            lemma_occurs_within(all[k], listing, printer);
        }
    }
    lemma_no_job_line(all, printer, 0);
}

/// Whether a name holds a character that is not white space.
pub open spec fn is_visible(name: Seq<char>) -> bool {
    exists|i: int| 0 <= i < name.len() && !is_space(#[trigger] name[i])
}

/// A line that holds a visible name has a token.
pub proof fn lemma_line_with_name_has_a_token(line: Seq<char>, name: Seq<char>)
    requires
        is_visible(name),
        occurs(line, name),
    ensures
        tokens(line).len() > 0,
{
    let i = choose|i: int| 0 <= i < name.len() && !is_space(#[trigger] name[i]);
    let at = choose|at: int| occurs_at(line, name, at);
    assert(line.subrange(at, at + name.len())[i] == name[i]);
    lemma_word_makes_a_token(line, at + i);
}

proof fn lemma_first_job_line(all: Seq<Seq<char>>, printer: Seq<char>, at: int)
    requires
        0 <= at,
    ensures
        match first_job_line(all, printer, at) {
            Some(k) => {
                &&& at <= k < all.len()
                &&& is_job_line(all[k], printer)
                &&& forall|j: int| at <= j < k ==> !is_job_line(#[trigger] all[j], printer)
            },
            None => forall|j: int| at <= j < all.len() ==> !is_job_line(#[trigger] all[j], printer),
        },
    decreases all.len() - at,
{
    if at < all.len() && !is_job_line(all[at], printer) {
        lemma_first_job_line(all, printer, at + 1);
    }
}

/// For a printer with a visible name, the listing shows a job exactly where
/// one of its lines holds the name, and the job's identifier is the first
/// token of the first such line.
pub proof fn lemma_job_is_on_first_line_with_name(listing: Seq<char>, printer: Seq<char>)
    requires
        is_visible(printer),
    ensures
        match job_id_in(listing, printer) {
            Some(id) => exists|k: int|
                {
                    &&& 0 <= k < lines(listing).len()
                    &&& occurs(#[trigger] lines(listing)[k], printer)
                    &&& forall|j: int| 0 <= j < k ==> !occurs(#[trigger] lines(listing)[j], printer)
                    &&& tokens(lines(listing)[k]).len() > 0
                    &&& id == tokens(lines(listing)[k])[0]
                },
            None => forall|j: int|
                0 <= j < lines(listing).len() ==> !occurs(#[trigger] lines(listing)[j], printer),
        },
{
    let all = lines(listing);
    lemma_first_job_line(all, printer, 0);
    assert forall|j: int| 0 <= j < all.len() && occurs(#[trigger] all[j], printer) implies is_job_line(
        all[j],
        printer,
    ) by {
        lemma_line_with_name_has_a_token(all[j], printer);
    }
    match first_job_line(all, printer, 0) {
        Some(k) => {
            assert(occurs(all[k], printer));
        },
        None => {},
    }
}

/// What an optional string holds, as characters.
pub open spec fn text_of(s: Option<String>) -> Option<Seq<char>> {
    match s {
        Some(s) => Some(s@),
        None => None,
    }
}

/// Finds the identifier of the job that was queued on `printer` in the print
/// subsystem's listing of outstanding jobs.
///
/// The listing has one job to a line, the job's identifier first. The job
/// taken is that of the first line that holds the printer's name. Only a
/// line without any token is passed over, which a line that holds the name
/// can be only where the name is empty or all white space.
pub fn get_job_id(listing: &str, printer: &str) -> (job_id: Option<String>)
    ensures
        text_of(job_id) == job_id_in(listing@, printer@),
{
    let all = split_lines(listing);
    let name = chars_of(printer);
    let mut k: usize = 0;
    while k < all.len()
        invariant
            k <= all.len(),
            name@ == printer@,
            views(all@) == lines(listing@),
            first_job_line(lines(listing@), printer@, k as int) == first_job_line(
                lines(listing@),
                printer@,
                0,
            ),
        decreases all.len() - k,
    {
        let line = &all[k];
        assert(views(all@)[k as int] == line@);
        let line_chars = chars_of(line.as_str());
        if occurs_in(&line_chars, &name) {
            let mut fields = split_whitespace(line.as_str());
            if fields.len() > 0 {
                let id = fields.swap_remove(0);
                assert(id@ == tokens(line@)[0]);
                return Some(id);
            }
        }
        k += 1;
    }
    None
}

/// Whether the print subsystem's listing of completed jobs shows `job_id`:
/// whether the identifier stands anywhere in it.
pub fn check_job_status(listing: &str, job_id: &str) -> (completed: bool)
    ensures
        completed == occurs(listing@, job_id@),
{
    let text = chars_of(listing);
    let id = chars_of(job_id);
    occurs_in(&text, &id)
}

} // verus!
