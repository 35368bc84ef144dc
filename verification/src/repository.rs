//! The repository: the file that holds the current word set, as one word
//! document.
//!
//! Reading is tolerant: whatever the file holds, there is a word set, and it
//! is empty where there is no file or no document in it. Writing replaces the
//! whole file.

use crate::document::{decode, document_of, encode, entries_of, lemma_document_plain,
    lemma_document_reads_back};
use crate::entry::{WordEntry, WordEntryView};
use crate::json::{json_parse, json_text, parse, render};
use vstd::prelude::*;

verus! {

/// The word set that a repository file with the given contents holds.
/// `None` stands for a file that is absent or cannot be read.
pub open spec fn loaded(contents: Option<Seq<char>>) -> Seq<WordEntryView> {
    match contents {
        Some(text) => match json_parse(text) {
            Some(doc) => entries_of(doc),
            None => Seq::empty(),
        },
        None => Seq::empty(),
    }
}

/// The contents that the repository file gets for a word set.
pub open spec fn stored_text(entries: Seq<WordEntryView>) -> Seq<char> {
    json_text(document_of(entries))
}

/// Whether `text` is the contents written for `entries`, and `serde_json`
/// reads it as the very document that was written.
pub open spec fn faithful(text: Seq<char>, entries: Seq<WordEntryView>) -> bool {
    &&& text == stored_text(entries)
    &&& json_parse(text) == Some(document_of(entries))
}

/// Contents that are faithful to a word set load as that word set.
pub proof fn lemma_faithful_loads(text: Seq<char>, entries: Seq<WordEntryView>)
    requires
        faithful(text, entries),
    ensures
        loaded(Some(text)) == entries,
{
    lemma_document_reads_back(entries);
}

/// The characters of the contents, where there are contents.
pub open spec fn contents_view(contents: Option<&str>) -> Option<Seq<char>> {
    match contents {
        Some(text) => Some(text@),
        None => None,
    }
}

/// Reads the current word set from the contents of the repository file.
/// `None` stands for a file that is absent or cannot be read. Nothing makes
/// this fail: an absent file, an empty file and a text that is not JSON all
/// give the empty word set, and an entry of neither shape is passed over.
pub fn load(contents: Option<&str>) -> (entries: Vec<WordEntry>)
    ensures
        entries.deep_view() == loaded(contents_view(contents)),
        contents is None ==> entries@.len() == 0,
        contents matches Some(text) && text@.len() == 0 ==> entries@.len() == 0,
        contents matches Some(text) && json_parse(text@) is None ==> entries@.len() == 0,
{
    match contents {
        Some(text) => match parse(text) {
            Some(doc) => decode(&doc),
            None => Vec::new(),
        },
        None => Vec::new(),
    }
}

/// Writes a word set as the contents that replace the repository file: the
/// given entries in their order, each with its word and its translation.
/// What is written reads back as the same word set.
pub fn replacement(entries: &Vec<WordEntry>) -> (text: String)
    ensures
        text@ == stored_text(entries.deep_view()),
        faithful(text@, entries.deep_view()),
        loaded(Some(text@)) == entries.deep_view(),
{
    let doc = encode(entries);
    proof {
        lemma_document_plain(entries.deep_view());
        lemma_document_reads_back(entries.deep_view());
    }
    render(&doc)
}

} // verus!
