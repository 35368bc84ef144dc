//! Saving a word set: what is written, and in which order.
//!
//! A save reads the current word set, appends it to the archive, and only
//! then overwrites the repository with the new word set. The library decides
//! each step; the caller does the writing and reports whether it succeeded.
//! A save whose words and translations differ in number is rejected before
//! anything is written.

use crate::archive::{holds_snapshot, record, record_text};
use crate::entry::{pair_up, paired};
use crate::repository::{contents_view, faithful, load, loaded, replacement, stored_text};
use vstd::prelude::*;

verus! {

/// Why a save was not attempted.
#[derive(Clone, Copy, Debug, PartialEq, Eq)]
pub enum Rejection {
    /// There are not as many translations as words.
    ArityMismatch { words: usize, translations: usize },
}

/// The file that could not be written.
#[derive(Clone, Copy, Debug, PartialEq, Eq)]
pub enum WriteError {
    /// The record could not be appended to the archive. The repository was
    /// left as it was.
    Archive,
    /// The archive has its record, but the repository could not be
    /// overwritten.
    Repository,
}

/// How a save ended.
#[derive(Clone, Copy, Debug, PartialEq, Eq)]
pub enum SaveOutcome {
    Saved,
    Rejected(Rejection),
    Failed(WriteError),
}

/// Where a save stands: the write that is due next, or how the save ended.
#[derive(Debug, PartialEq, Eq)]
pub enum SaveStep {
    /// `record` is to be appended to the archive file. `replacement` waits
    /// until that is done.
    AppendArchive { record: String, replacement: String },
    /// `replacement` is to become the whole contents of the repository file.
    WriteRepository { replacement: String },
    /// Nothing is left to write.
    Done(SaveOutcome),
}

/// What a `SaveStep` stands for.
pub enum SaveStepView {
    AppendArchive { record: Seq<char>, replacement: Seq<char> },
    WriteRepository { replacement: Seq<char> },
    Done(SaveOutcome),
}

impl View for SaveStep {
    type V = SaveStepView;

    open spec fn view(&self) -> SaveStepView {
        match self {
            SaveStep::AppendArchive { record, replacement } => SaveStepView::AppendArchive {
                record: record@,
                replacement: replacement@,
            },
            SaveStep::WriteRepository { replacement } => SaveStepView::WriteRepository {
                replacement: replacement@,
            },
            SaveStep::Done(outcome) => SaveStepView::Done(*outcome),
        }
    }
}

/// The step that a save begins with, given the contents of the repository
/// file as the save finds it.
pub open spec fn first_step(
    words: Seq<Seq<char>>,
    translations: Seq<Seq<char>>,
    current: Option<Seq<char>>,
) -> SaveStepView {
    if words.len() != translations.len() {
        SaveStepView::Done(
            SaveOutcome::Rejected(
                Rejection::ArityMismatch {
                    words: words.len() as usize,
                    translations: translations.len() as usize,
                },
            ),
        )
    } else {
        SaveStepView::AppendArchive {
            record: record_text(loaded(current)),
            replacement: stored_text(paired(words, translations)),
        }
    }
}

/// The step that follows `step` once its write has succeeded or failed.
pub open spec fn next_step(step: SaveStepView, succeeded: bool) -> SaveStepView {
    match step {
        SaveStepView::AppendArchive { record, replacement } => if succeeded {
            SaveStepView::WriteRepository { replacement }
        } else {
            SaveStepView::Done(SaveOutcome::Failed(WriteError::Archive))
        },
        SaveStepView::WriteRepository { replacement } => if succeeded {
            SaveStepView::Done(SaveOutcome::Saved)
        } else {
            SaveStepView::Done(SaveOutcome::Failed(WriteError::Repository))
        },
        SaveStepView::Done(outcome) => SaveStepView::Done(outcome),
    }
}

/// Begins a save of `words` with their `translations`. `current` is the
/// contents of the repository file, `None` where it is absent or cannot be
/// read.
///
/// Where the two sequences differ in length the save is rejected at once.
/// Otherwise the first step is the append to the archive, whose record holds
/// the word set that `current` loads as, and the replacement is the document
/// of the new word set, which loads as the words paired with their
/// translations.
pub fn begin_save(words: &Vec<String>, translations: &Vec<String>, current: Option<&str>) -> (step:
    SaveStep)
    ensures
        step@ == first_step(words.deep_view(), translations.deep_view(), contents_view(current)),
        step matches SaveStep::AppendArchive { record, replacement } ==> {
            &&& holds_snapshot(record@, loaded(contents_view(current)))
            &&& faithful(
                stored_text(loaded(contents_view(current))),
                loaded(contents_view(current)),
            )
            &&& faithful(replacement@, paired(words.deep_view(), translations.deep_view()))
        },
{
    match pair_up(words, translations) {
        Some(entries) => {
            let previous = load(current);
            let record = record(&previous);
            let replacement = replacement(&entries);
            SaveStep::AppendArchive { record, replacement }
        },
        None => SaveStep::Done(
            SaveOutcome::Rejected(
                Rejection::ArityMismatch { words: words.len(), translations: translations.len() },
            ),
        ),
    }
}

impl SaveStep {
    /// The step that follows this one. `succeeded` says whether the write
    /// that this step asked for was carried out. A failed write ends the
    /// save, and names the file; after a finished save nothing changes.
    pub fn after_write(self, succeeded: bool) -> (next: SaveStep)
        ensures
            next@ == next_step(self@, succeeded),
    {
        match self {
            SaveStep::AppendArchive { record, replacement } => if succeeded {
                SaveStep::WriteRepository { replacement }
            } else {
                SaveStep::Done(SaveOutcome::Failed(WriteError::Archive))
            },
            SaveStep::WriteRepository { replacement } => if succeeded {
                SaveStep::Done(SaveOutcome::Saved)
            } else {
                SaveStep::Done(SaveOutcome::Failed(WriteError::Repository))
            },
            SaveStep::Done(outcome) => SaveStep::Done(outcome),
        }
    }
}

/// The archive comes first: a save does not begin with the repository, and
/// the repository is only due once the append to the archive has succeeded,
/// with the replacement that the save began with.
pub proof fn lemma_archive_comes_first(
    words: Seq<Seq<char>>,
    translations: Seq<Seq<char>>,
    current: Option<Seq<char>>,
)
    ensures
        !(first_step(words, translations, current) is WriteRepository),
        forall|step: SaveStepView, succeeded: bool|
            #[trigger] next_step(step, succeeded) is WriteRepository ==> {
                &&& succeeded
                &&& step is AppendArchive
                &&& step->AppendArchive_replacement == next_step(
                    step,
                    succeeded,
                )->WriteRepository_replacement
            },
{
}

/// A save ends as saved only by way of both writes, each of which
/// succeeded.
pub proof fn lemma_saved_after_both_writes(step: SaveStepView, succeeded: bool)
    requires
        next_step(step, succeeded) == SaveStepView::Done(SaveOutcome::Saved),
        step != SaveStepView::Done(SaveOutcome::Saved),
    ensures
        succeeded,
        step is WriteRepository,
{
}

} // verus!
