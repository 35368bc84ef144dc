//! The archive: the file that keeps every word set that a save has
//! superseded.
//!
//! The file only grows. Each save appends one record, a line that holds the
//! word document of the word set as it was before the save. A save that
//! finds no earlier word set appends the record of the empty word set.

use crate::entry::{WordEntry, WordEntryView};
use crate::repository::{faithful, lemma_faithful_loads, loaded, replacement, stored_text};
use vstd::prelude::*;

verus! {

/// The record of a snapshot: its word document, followed by a line feed.
pub open spec fn record_text(snapshot: Seq<WordEntryView>) -> Seq<char> {
    stored_text(snapshot).push('\n')
}

/// Whether `record` is one line whose document holds exactly `snapshot`.
pub open spec fn holds_snapshot(record: Seq<char>, snapshot: Seq<WordEntryView>) -> bool {
    &&& record.len() > 0
    &&& record.last() == '\n'
    &&& loaded(Some(record.drop_last())) == snapshot
}

/// Whether `archive` ends with a record that holds exactly `snapshot`.
pub open spec fn ends_with_snapshot(archive: Seq<char>, snapshot: Seq<WordEntryView>) -> bool {
    exists|start: int|
        0 <= start <= archive.len() && holds_snapshot(
            #[trigger] archive.subrange(start, archive.len() as int),
            snapshot,
        )
}

/// The record of a snapshot holds the snapshot, where the snapshot's document
/// reads back.
pub proof fn lemma_record_holds(snapshot: Seq<WordEntryView>)
    requires
        faithful(stored_text(snapshot), snapshot),
    ensures
        holds_snapshot(record_text(snapshot), snapshot),
{
    lemma_faithful_loads(stored_text(snapshot), snapshot);
    assert(record_text(snapshot).drop_last() =~= stored_text(snapshot));
}

/// Writes the record that is appended to the archive for a snapshot. The
/// snapshot may be empty. The record holds the snapshot: its document reads
/// back as the same word set.
pub fn record(snapshot: &Vec<WordEntry>) -> (line: String)
    ensures
        line@ == record_text(snapshot.deep_view()),
        faithful(stored_text(snapshot.deep_view()), snapshot.deep_view()),
        holds_snapshot(line@, snapshot.deep_view()),
{
    let mut line = replacement(snapshot);
    let ghost document = line@;
    line.append("\n");
    proof {
        reveal_strlit("\n");
        assert(line@ =~= document.push('\n'));
        lemma_record_holds(snapshot.deep_view());
    }
    line
}

/// An archive to which a record was appended ends with the snapshot that the
/// record holds, whatever the archive held before.
pub proof fn lemma_appended_record_ends(
    archive: Seq<char>,
    record: Seq<char>,
    snapshot: Seq<WordEntryView>,
)
    requires
        holds_snapshot(record, snapshot),
    ensures
        ends_with_snapshot(archive + record, snapshot),
{
    let grown = archive + record;
    assert(grown.subrange(archive.len() as int, grown.len() as int) =~= record);
}

} // verus!
