//! The word store as a value: what the two files hold, and the two
//! operations of the store on them.
//!
//! `WordStore` carries file contents, not files. A caller that keeps the
//! store on disk runs the same steps against its files (see `save`); here
//! every write succeeds, so a save ends as saved or as rejected.

use crate::archive::{ends_with_snapshot, lemma_appended_record_ends, lemma_record_holds,
    record_text};
use crate::entry::{paired, WordEntry};
use crate::repository::{faithful, lemma_faithful_loads, load, loaded, stored_text};
use crate::save::{begin_save, Rejection, SaveOutcome, SaveStep, SaveStepView};
use vstd::prelude::*;

verus! {

/// The contents of the repository file, `None` while there is no such file,
/// and the contents of the archive file.
#[derive(Debug, PartialEq, Eq)]
pub struct WordStore {
    pub repository: Option<String>,
    pub archive: String,
}

/// What a `WordStore` stands for.
pub struct StoreContents {
    pub repository: Option<Seq<char>>,
    pub archive: Seq<char>,
}

impl View for WordStore {
    type V = StoreContents;

    open spec fn view(&self) -> StoreContents {
        StoreContents {
            repository: match self.repository {
                Some(text) => Some(text@),
                None => None,
            },
            archive: self.archive@,
        }
    }
}

/// How a save of these words and translations ends where every write
/// succeeds.
pub open spec fn save_outcome(words: Seq<Seq<char>>, translations: Seq<Seq<char>>) -> SaveOutcome {
    if words.len() != translations.len() {
        SaveOutcome::Rejected(
            Rejection::ArityMismatch {
                words: words.len() as usize,
                translations: translations.len() as usize,
            },
        )
    } else {
        SaveOutcome::Saved
    }
}

/// Whether a save of `words` with `translations` takes the store from
/// `before` to `after`.
///
/// A rejected save changes nothing. Any other save appends to the archive the
/// record of the word set that `before` loads as, and makes the repository
/// the document of the words paired with their translations; both documents
/// read back as they were written.
pub open spec fn save_takes(
    before: StoreContents,
    words: Seq<Seq<char>>,
    translations: Seq<Seq<char>>,
    after: StoreContents,
) -> bool {
    if words.len() != translations.len() {
        after == before
    } else {
        let superseded = loaded(before.repository);
        let wanted = paired(words, translations);
        &&& after.archive == before.archive + record_text(superseded)
        &&& faithful(stored_text(superseded), superseded)
        &&& after.repository == Some(stored_text(wanted))
        &&& faithful(stored_text(wanted), wanted)
    }
}

/// How many writes are left after which a save that stands at `step` ends.
pub open spec fn writes_left(step: SaveStepView) -> nat {
    match step {
        SaveStepView::AppendArchive { .. } => 2,
        SaveStepView::WriteRepository { .. } => 1,
        SaveStepView::Done(_) => 0,
    }
}

impl WordStore {
    /// The store before anything was saved: no repository file, and an
    /// archive without a record.
    pub fn new() -> (store: WordStore)
        ensures
            store@ == (StoreContents { repository: None, archive: Seq::empty() }),
    {
        WordStore { repository: None, archive: String::new() }
    }

    /// The current word set, in the order in which it was saved. This never
    /// fails: a store without a repository, or with one that holds no
    /// document, has the empty word set.
    pub fn load_words(&self) -> (entries: Vec<WordEntry>)
        ensures
            entries.deep_view() == loaded(self@.repository),
    {
        match &self.repository {
            Some(text) => load(Some(text.as_str())),
            None => load(None),
        }
    }

    /// Saves `words` with their `translations` as the new word set.
    ///
    /// Where the two differ in length the save is rejected and the store is
    /// left as it was. Otherwise the word set that the store held goes to
    /// the end of the archive, the repository is replaced by the new word
    /// set, which `load_words` then returns, and the save ends as saved.
    pub fn save_words(&mut self, words: &Vec<String>, translations: &Vec<String>) -> (outcome:
        SaveOutcome)
        ensures
            outcome == save_outcome(words.deep_view(), translations.deep_view()),
            save_takes(old(self)@, words.deep_view(), translations.deep_view(), final(self)@),
            words.len() == translations.len() ==> loaded(final(self)@.repository) == paired(
                words.deep_view(),
                translations.deep_view(),
            ),
    {
        let ghost before = self@;
        let ghost superseded = loaded(before.repository);
        let ghost wanted = paired(words.deep_view(), translations.deep_view());
        let mut step = match &self.repository {
            Some(text) => begin_save(words, translations, Some(text.as_str())),
            None => begin_save(words, translations, None),
        };
        loop
            invariant
                match step@ {
                    SaveStepView::AppendArchive { record, replacement } => {
                        &&& words.len() == translations.len()
                        &&& self@ == before
                        &&& record == record_text(superseded)
                        &&& replacement == stored_text(wanted)
                    },
                    SaveStepView::WriteRepository { replacement } => {
                        &&& words.len() == translations.len()
                        &&& self@.archive == before.archive + record_text(superseded)
                        &&& replacement == stored_text(wanted)
                    },
                    SaveStepView::Done(outcome) => {
                        &&& outcome == save_outcome(words.deep_view(), translations.deep_view())
                        &&& save_takes(
                            before,
                            words.deep_view(),
                            translations.deep_view(),
                            self@,
                        )
                    },
                },
                words.len() == translations.len() ==> faithful(stored_text(superseded), superseded),
                words.len() == translations.len() ==> faithful(stored_text(wanted), wanted),
                before == old(self)@,
                superseded == loaded(before.repository),
                wanted == paired(words.deep_view(), translations.deep_view()),
            decreases writes_left(step@),
        {
            match &step {
                SaveStep::AppendArchive { record, .. } => {
                    self.archive.append(record.as_str());
                },
                SaveStep::WriteRepository { replacement } => {
                    self.repository = Some(replacement.clone());
                },
                SaveStep::Done(outcome) => {
                    proof {
                        if words.len() == translations.len() {
                            lemma_faithful_loads(stored_text(wanted), wanted);
                        }
                    }
                    return *outcome;
                },
            }
            step = step.after_write(true);
        }
    }
}

/// Saving and then loading gives back what was saved: after a save of as
/// many translations as words, the store loads as the words paired with
/// their translations, each pair at its place.
pub proof fn lemma_saved_words_load(
    before: StoreContents,
    words: Seq<Seq<char>>,
    translations: Seq<Seq<char>>,
    after: StoreContents,
)
    requires
        words.len() == translations.len(),
        save_takes(before, words, translations, after),
    ensures
        loaded(after.repository) == paired(words, translations),
{
    lemma_faithful_loads(stored_text(paired(words, translations)), paired(words, translations));
}

/// A save archives before it overwrites. The archive keeps all it had and
/// gains one record at its end, which holds the word set that the store
/// loaded as before the save; the repository then holds the new word set
/// alone, with nothing of the old one merged in.
pub proof fn lemma_save_archives_then_replaces(
    before: StoreContents,
    words: Seq<Seq<char>>,
    translations: Seq<Seq<char>>,
    after: StoreContents,
)
    requires
        words.len() == translations.len(),
        save_takes(before, words, translations, after),
    ensures
        after.archive == before.archive + record_text(loaded(before.repository)),
        ends_with_snapshot(after.archive, loaded(before.repository)),
        loaded(after.repository) == paired(words, translations),
{
    let superseded = loaded(before.repository);
    lemma_record_holds(superseded);
    lemma_appended_record_ends(before.archive, record_text(superseded), superseded);
    lemma_saved_words_load(before, words, translations, after);
}

/// A save of words and translations that differ in number is rejected, and
/// leaves the repository and the archive as they were.
pub proof fn lemma_mismatch_changes_nothing(
    before: StoreContents,
    words: Seq<Seq<char>>,
    translations: Seq<Seq<char>>,
    after: StoreContents,
)
    requires
        words.len() != translations.len(),
        save_takes(before, words, translations, after),
    ensures
        after == before,
        save_outcome(words, translations) is Rejected,
{
}

/// The first save, which finds no repository file, still archives: the
/// archive gains the record of the empty word set, and the repository then
/// holds exactly what was saved.
pub proof fn lemma_first_save_archives_nothing(
    before: StoreContents,
    words: Seq<Seq<char>>,
    translations: Seq<Seq<char>>,
    after: StoreContents,
)
    requires
        before.repository is None,
        words.len() == translations.len(),
        save_takes(before, words, translations, after),
    ensures
        after.archive == before.archive + record_text(Seq::empty()),
        ends_with_snapshot(after.archive, Seq::empty()),
        loaded(after.repository) == paired(words, translations),
{
    lemma_save_archives_then_replaces(before, words, translations, after);
}

} // verus!
