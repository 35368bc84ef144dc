//! The word document: a record whose field `words` lists the entries.
//!
//! An entry is read from either of two shapes: a record with the text fields
//! `word` and `translation`, or a bare text, which is a word without a
//! translation. Entries are always written in the first shape.

use crate::entry::{WordEntry, WordEntryView};
use crate::json::{field_of, pairs_of, plain_within, record_of, trees_of, Json, JsonTree, PLAIN_DEPTH};
use vstd::prelude::*;

verus! {

/// The entry that a list item holds, if it has one of the two shapes.
pub open spec fn entry_of(item: JsonTree) -> Option<WordEntryView> {
    match item {
        JsonTree::Text(word) => Some(WordEntryView { word, translation: Seq::empty() }),
        JsonTree::Record(_) => match (field_of(item, "word"@), field_of(item, "translation"@)) {
            (Some(JsonTree::Text(word)), Some(JsonTree::Text(translation))) => Some(
                WordEntryView { word, translation },
            ),
            _ => None,
        },
        _ => None,
    }
}

/// The entries that the items hold, in the order of the items; an item that
/// holds none is passed over.
pub open spec fn kept_entries(items: Seq<JsonTree>) -> Seq<WordEntryView>
    decreases items.len(),
{
    if items.len() == 0 {
        Seq::empty()
    } else {
        let before = kept_entries(items.drop_last());
        match entry_of(items.last()) {
            Some(entry) => before.push(entry),
            None => before,
        }
    }
}

/// The word set that a document holds: the entries of the list in its field
/// `words`, and nothing where there is no such list.
pub open spec fn entries_of(doc: JsonTree) -> Seq<WordEntryView> {
    match field_of(doc, "words"@) {
        Some(JsonTree::List(items)) => kept_entries(items),
        _ => Seq::empty(),
    }
}

/// The record that an entry is written as.
pub open spec fn entry_tree(entry: WordEntryView) -> JsonTree {
    JsonTree::Record(
        map![
            "word"@ => JsonTree::Text(entry.word),
            "translation"@ => JsonTree::Text(entry.translation),
        ],
    )
}

/// The document that a word set is written as.
pub open spec fn document_of(entries: Seq<WordEntryView>) -> JsonTree {
    JsonTree::Record(
        map!["words"@ => JsonTree::List(Seq::new(entries.len(), |i: int| entry_tree(entries[i])))],
    )
}

/// Reads the entry of one list item.
pub fn decode_entry(item: &Json) -> (entry: Option<WordEntry>)
    ensures
        entry.deep_view() == entry_of(item@),
{
    match item {
        Json::Text(word) => Some(WordEntry::new(word.clone(), String::new())),
        Json::Record(_) => {
            let word = item.field("word");
            let translation = item.field("translation");
            match (word, translation) {
                (Some(Json::Text(w)), Some(Json::Text(t))) => Some(
                    WordEntry::new(w.clone(), t.clone()),
                ),
                _ => None,
            }
        },
        _ => None,
    }
}

/// Reads the word set of a document.
pub fn decode(doc: &Json) -> (entries: Vec<WordEntry>)
    ensures
        entries.deep_view() == entries_of(doc@),
{
    let mut entries: Vec<WordEntry> = Vec::new();
    match doc.field("words") {
        Some(Json::List(items)) => {
            let ghost trees = trees_of(items@);
            let mut i: usize = 0;
            assert(trees.take(0) =~= Seq::empty());
            while i < items.len()
                invariant
                    i <= items.len(),
                    trees == trees_of(items@),
                    entries.deep_view() == kept_entries(trees.take(i as int)),
                decreases items.len() - i,
            {
                let ghost before = entries.deep_view();
                let found = decode_entry(&items[i]);
                proof {
                    let upto = trees.take(i + 1);
                    assert(upto.drop_last() =~= trees.take(i as int));
                    assert(upto.last() == items[i as int]@);
                }
                match found {
                    Some(entry) => {
                        entries.push(entry);
                        assert(entries.deep_view() =~= before.push(entry@));
                    },
                    None => {},
                }
                i += 1;
            }
            assert(trees.take(i as int) =~= trees);
        },
        _ => {},
    }
    entries
}

/// Writes one entry as a record.
pub fn encode_entry(entry: &WordEntry) -> (item: Json)
    ensures
        item@ == entry_tree(entry@),
{
    let mut fields: Vec<(String, Json)> = Vec::new();
    fields.push(("word".to_owned(), Json::Text(entry.word.clone())));
    fields.push(("translation".to_owned(), Json::Text(entry.translation.clone())));
    proof {
        reveal_with_fuel(record_of, 3);
        let pairs = pairs_of(fields@);
        assert(pairs.drop_last().drop_last() =~= Seq::empty());
        assert(record_of(pairs) =~= map![
            "word"@ => JsonTree::Text(entry.word@),
            "translation"@ => JsonTree::Text(entry.translation@),
        ]);
    }
    Json::Record(fields)
}

/// Writes a word set as a document.
pub fn encode(entries: &Vec<WordEntry>) -> (doc: Json)
    ensures
        doc@ == document_of(entries.deep_view()),
{
    let mut items: Vec<Json> = Vec::new();
    let mut i: usize = 0;
    while i < entries.len()
        invariant
            i <= entries.len(),
            items.len() == i,
            forall|j: int| 0 <= j < i ==> items[j]@ == entry_tree(entries[j]@),
        decreases entries.len() - i,
    {
        items.push(encode_entry(&entries[i]));
        i += 1;
    }
    let mut fields: Vec<(String, Json)> = Vec::new();
    fields.push(("words".to_owned(), Json::List(items)));
    proof {
        reveal_with_fuel(record_of, 2);
        let pairs = pairs_of(fields@);
        let listed = entries.deep_view();
        assert(trees_of(items@) =~= Seq::new(listed.len(), |i: int| entry_tree(listed[i])));
        assert(pairs.drop_last() =~= Seq::empty());
        assert(record_of(pairs) =~= map![
            "words"@ => JsonTree::List(Seq::new(listed.len(), |i: int| entry_tree(listed[i]))),
        ]);
    }
    Json::Record(fields)
}

/// An entry that was written is read as the same entry.
pub proof fn lemma_entry_reads_back(entry: WordEntryView)
    ensures
        entry_of(entry_tree(entry)) == Some(entry),
{
    reveal_strlit("word");
    reveal_strlit("translation");
    assert("word"@.len() != "translation"@.len());
}

/// A word set that was written as a document is read from the document as
/// the same word set: the same entries in the same order.
pub proof fn lemma_document_reads_back(entries: Seq<WordEntryView>)
    ensures
        entries_of(document_of(entries)) == entries,
{
    let items = Seq::new(entries.len(), |i: int| entry_tree(entries[i]));
    lemma_items_read_back(entries, entries.len() as int);
    assert(items.take(entries.len() as int) =~= items);
    assert(entries.take(entries.len() as int) =~= entries);
}

/// The first `n` written entries are read back as the first `n` entries.
proof fn lemma_items_read_back(entries: Seq<WordEntryView>, n: int)
    requires
        0 <= n <= entries.len(),
    ensures
        kept_entries(Seq::new(entries.len(), |i: int| entry_tree(entries[i])).take(n))
            == entries.take(n),
    decreases n,
{
    let items = Seq::new(entries.len(), |i: int| entry_tree(entries[i]));
    if n == 0 {
        assert(entries.take(0) =~= Seq::empty());
    } else {
        lemma_items_read_back(entries, n - 1);
        lemma_entry_reads_back(entries[n - 1]);
        assert(items.take(n).drop_last() =~= items.take(n - 1));
        assert(entries.take(n) =~= entries.take(n - 1).push(entries[n - 1]));
    }
}

/// A written document holds no number and nests three deep, so `render`
/// promises that its text reads back.
pub proof fn lemma_document_plain(entries: Seq<WordEntryView>)
    ensures
        plain_within(document_of(entries), PLAIN_DEPTH as nat),
{
    reveal_with_fuel(plain_within, 4);
}

} // verus!
