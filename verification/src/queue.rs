//! The file queue: which files of a directory wait to be printed, and what
//! becomes of a file once it has been.

use vstd::prelude::*;
use vstd::string::StrSliceExecFns;
use vstd::string::StringExecFns;
use crate::text::{chars_of, trim, trimmed};

verus! {

/// Where a label file stands.
#[derive(Clone, Copy, Debug, PartialEq, Eq)]
pub enum FileState {
    /// It waits to be printed.
    Pending,
    /// It has been printed, and its name says so.
    Used,
}

/// A label file of the watched directory.
#[derive(Debug, PartialEq, Eq)]
pub struct QueuedFile {
    /// The path under which the file is found.
    pub path: String,
    /// Whether it still waits to be printed.
    pub state: FileState,
}

/// A `QueuedFile` as contracts see it.
pub ghost struct QueuedFileView {
    pub path: Seq<char>,
    pub state: FileState,
}

impl View for QueuedFile {
    type V = QueuedFileView;

    open spec fn view(&self) -> QueuedFileView {
        QueuedFileView { path: self.path@, state: self.state }
    }
}

/// Why a file cannot be marked as used.
#[derive(Clone, Copy, Debug, PartialEq, Eq)]
pub enum QueueError {
    /// It has been marked before.
    AlreadyUsed,
    /// Its path does not end in the label extension.
    NotALabel,
}

/// Whether `c` is the small letter `small` or its capital.
pub open spec fn is_letter(c: char, small: char) -> bool {
    c == small || c as u32 + 0x20 == small as u32
}

/// Whether a path ends in the label extension: its last component is a stem
/// of at least one character, a dot, and `zpl` in small or capital letters.
pub open spec fn has_label_extension(path: Seq<char>) -> bool {
    let n = path.len() as int;
    &&& n >= 5
    &&& path[n - 5] != '/'
    &&& path[n - 4] == '.'
    &&& is_letter(path[n - 3], 'z')
    &&& is_letter(path[n - 2], 'p')
    &&& is_letter(path[n - 1], 'l')
}

/// The extension that marks a file as used.
pub open spec fn used_marker() -> Seq<char> {
    seq!['u', 's', 'e', 'd']
}

/// The path of a label file once it is marked as used: the label extension
/// gives way to the marker.
pub open spec fn used_path(path: Seq<char>) -> Seq<char> {
    path.subrange(0, path.len() - 3) + used_marker()
}

/// `has_label_extension` as a predicate.
pub open spec fn label_filter() -> spec_fn(Seq<char>) -> bool {
    |path: Seq<char>| has_label_extension(path)
}

/// The files that wait to be printed among the entries of a directory: those
/// that end in the label extension, in the order of the entries.
pub open spec fn pending_among(entries: Seq<Seq<char>>) -> Seq<QueuedFileView> {
    entries.filter(label_filter()).map_values(
        |path: Seq<char>| QueuedFileView { path, state: FileState::Pending },
    )
}

/// The entries of a directory after a batch in which every label file was
/// printed and marked as used; the other entries are as they were.
pub open spec fn after_printing(entries: Seq<Seq<char>>) -> Seq<Seq<char>> {
    entries.map_values(
        |path: Seq<char>|
            if has_label_extension(path) {
                used_path(path)
            } else {
                path
            },
    )
}

/// The path of a file that is marked as used does not end in the label
/// extension.
pub proof fn lemma_used_path_is_no_label(path: Seq<char>)
    requires
        has_label_extension(path),
    ensures
        !has_label_extension(used_path(path)),
{
    let marked = used_path(path);
    assert(marked.len() == path.len() + 1);
    assert(marked[marked.len() - 4] == 'u');
}

proof fn lemma_no_label_none_pending(entries: Seq<Seq<char>>)
    requires
        forall|k: int| 0 <= k < entries.len() ==> !has_label_extension(#[trigger] entries[k]),
    ensures
        entries.filter(label_filter()).len() == 0,
    decreases entries.len(),
{
    reveal(Seq::filter);
    if entries.len() > 0 {
        lemma_no_label_none_pending(entries.drop_last());
    }
}

/// Once every label file of a directory is marked as used, no file of the
/// directory waits to be printed.
pub proof fn lemma_used_files_do_not_wait(entries: Seq<Seq<char>>)
    ensures
        pending_among(after_printing(entries)) == Seq::<QueuedFileView>::empty(),
{
    let after = after_printing(entries);
    assert forall|k: int| 0 <= k < after.len() implies !has_label_extension(#[trigger] after[k]) by {
        if has_label_extension(entries[k]) {
            lemma_used_path_is_no_label(entries[k]);
        }
    }
    lemma_no_label_none_pending(after);
    assert(pending_among(after) =~= Seq::<QueuedFileView>::empty());
}

/// What a vector of files holds.
pub open spec fn file_views(files: Seq<QueuedFile>) -> Seq<QueuedFileView> {
    files.map_values(|file: QueuedFile| file@)
}

/// What a vector of paths holds.
pub open spec fn path_views(paths: Seq<String>) -> Seq<Seq<char>> {
    paths.map_values(|path: String| path@)
}

/// Whether an answer to a yes-or-no question says yes: it is the letter `y`,
/// small or capital, with nothing but white space around it.
pub open spec fn affirms(answer: Seq<char>) -> bool {
    let said = trimmed(answer);
    said.len() == 1 && is_letter(said[0], 'y')
}

fn letter_matches(c: char, small: char) -> (b: bool)
    requires
        0x61 <= small as u32 <= 0x7a,
    ensures
        b == is_letter(c, small),
{
    let code: u32 = c as u32;
    let wanted: u32 = small as u32;
    code == wanted || code + 0x20 == wanted
}

/// Whether a path ends in the label extension.
pub fn is_label_path(path: &str) -> (b: bool)
    ensures
        b == has_label_extension(path@),
{
    let chars = chars_of(path);
    let n: usize = chars.len();
    n >= 5 && chars[n - 5] != '/' && chars[n - 4] == '.' && letter_matches(chars[n - 3], 'z')
        && letter_matches(chars[n - 2], 'p') && letter_matches(chars[n - 1], 'l')
}

/// The path that a label file has once it is marked as used, or nothing for
/// a path that does not end in the label extension.
pub fn used_path_of(path: &str) -> (marked: Option<String>)
    ensures
        has_label_extension(path@) ==> marked is Some && marked->0@ == used_path(path@),
        !has_label_extension(path@) ==> marked is None,
{
    if !is_label_path(path) {
        return None;
    }
    let n: usize = path.unicode_len();
    let stem = path.substring_char(0, n - 3).to_owned();
    let marked = stem.concat("used");
    proof {
        reveal_strlit("used");
        assert("used"@ =~= used_marker());
    }
    Some(marked)
}

impl QueuedFile {
    /// A file that waits to be printed.
    pub fn pending(path: String) -> (file: QueuedFile)
        ensures
            file@ == (QueuedFileView { path: path@, state: FileState::Pending }),
    {
        QueuedFile { path, state: FileState::Pending }
    }

    /// Records that the file was printed: it becomes `Used`, and its path
    /// becomes the one with the marker in place of the label extension.
    ///
    /// A file that is used already, or whose path does not end in the label
    /// extension, is refused and stays as it is.
    pub fn mark_used(&mut self) -> (done: Result<(), QueueError>)
        ensures
            old(self)@.state == FileState::Used ==> done == Err::<(), QueueError>(
                QueueError::AlreadyUsed,
            ),
            old(self)@.state == FileState::Pending && !has_label_extension(old(self)@.path) ==> done
                == Err::<(), QueueError>(QueueError::NotALabel),
            old(self)@.state == FileState::Pending && has_label_extension(old(self)@.path) ==> done
                is Ok,
            done is Ok ==> final(self)@ == (QueuedFileView {
                path: used_path(old(self)@.path),
                state: FileState::Used,
            }),
            done is Err ==> final(self)@ == old(self)@,
    {
        match self.state {
            FileState::Used => Err(QueueError::AlreadyUsed),
            FileState::Pending => match used_path_of(self.path.as_str()) {
                None => Err(QueueError::NotALabel),
                Some(marked) => {
                    self.path = marked;
                    self.state = FileState::Used;
                    Ok(())
                },
            },
        }
    }
}

/// Finds the files that wait to be printed among the entries of the watched
/// directory: those whose path ends in the label extension, whatever the case
/// of its letters. They come out in the order of the entries, each `Pending`.
pub fn discover_pending(entries: &Vec<String>) -> (files: Vec<QueuedFile>)
    ensures
        file_views(files@) == pending_among(path_views(entries@)),
{
    let mut files: Vec<QueuedFile> = Vec::new();
    let mut k: usize = 0;
    let ghost paths = path_views(entries@);
    proof {
        assert(paths.take(0) =~= Seq::<Seq<char>>::empty());
        assert(paths.take(0).filter(label_filter()) =~= Seq::<Seq<char>>::empty()) by {
            reveal(Seq::filter);
        }
        assert(file_views(files@) =~= pending_among(paths.take(0)));
    }
    while k < entries.len()
        invariant
            k <= entries.len(),
            paths == path_views(entries@),
            file_views(files@) == pending_among(paths.take(k as int)),
        decreases entries.len() - k,
    {
        let path = &entries[k];
        proof {
            assert(paths[k as int] == path@);
            assert(paths.take(k + 1) =~= paths.take(k as int).push(path@));
            paths.take(k as int).lemma_filter_push(path@, label_filter());
        }
        if is_label_path(path.as_str()) {
            let ghost before = files@;
            files.push(QueuedFile::pending(path.clone()));
            proof {
                assert(file_views(files@) =~= file_views(before).push(
                    QueuedFileView { path: path@, state: FileState::Pending },
                ));
                assert(pending_among(paths.take(k + 1)) =~= pending_among(
                    paths.take(k as int),
                ).push(QueuedFileView { path: path@, state: FileState::Pending }));
            }
        }
        k += 1;
    }
    assert(paths.take(k as int) =~= paths);
    files
}

/// Whether a batch of `count` files is printed only after the operator has
/// agreed: a batch of more than one file is.
pub fn needs_confirmation(count: usize) -> (asked: bool)
    ensures
        asked == (count > 1),
{
    count > 1
}

/// Whether the operator's answer agrees to the batch.
pub fn is_affirmative(answer: &str) -> (yes: bool)
    ensures
        yes == affirms(answer@),
{
    let said = chars_of(trim(answer));
    said.len() == 1 && letter_matches(said[0], 'y')
}

} // verus!
