//! Word entries and word sets.

use vstd::prelude::*;

verus! {

/// One word with its translation. The translation may be empty.
#[derive(Clone, Debug, PartialEq, Eq)]
pub struct WordEntry {
    pub word: String,
    pub translation: String,
}

/// What a `WordEntry` stands for: two texts.
pub struct WordEntryView {
    pub word: Seq<char>,
    pub translation: Seq<char>,
}

impl View for WordEntry {
    type V = WordEntryView;

    open spec fn view(&self) -> WordEntryView {
        WordEntryView { word: self.word@, translation: self.translation@ }
    }
}

impl DeepView for WordEntry {
    type V = WordEntryView;

    open spec fn deep_view(&self) -> WordEntryView {
        self@
    }
}

/// The word set that pairs each word with the translation at the same
/// position, in the order of the words. It is meant for as many translations
/// as words.
pub open spec fn paired(words: Seq<Seq<char>>, translations: Seq<Seq<char>>) -> Seq<WordEntryView> {
    Seq::new(
        words.len(),
        |i: int| WordEntryView { word: words[i], translation: translations[i] },
    )
}

impl WordEntry {
    /// An entry made of the two given texts.
    pub fn new(word: String, translation: String) -> (entry: WordEntry)
        ensures
            entry@ == (WordEntryView { word: word@, translation: translation@ }),
    {
        WordEntry { word, translation }
    }
}

/// Pairs each word with the translation at the same position. There is a
/// result exactly when the two sequences have the same length.
pub fn pair_up(words: &Vec<String>, translations: &Vec<String>) -> (entries: Option<Vec<WordEntry>>)
    ensures
        entries is Some <==> words.len() == translations.len(),
        entries matches Some(list) ==> list.deep_view() == paired(
            words.deep_view(),
            translations.deep_view(),
        ),
{
    if words.len() != translations.len() {
        return None;
    }
    let mut list: Vec<WordEntry> = Vec::new();
    let mut i: usize = 0;
    while i < words.len()
        invariant
            i <= words.len(),
            words.len() == translations.len(),
            list.len() == i,
            forall|j: int|
                0 <= j < i ==> list[j]@ == (WordEntryView {
                    word: words[j]@,
                    translation: translations[j]@,
                }),
        decreases words.len() - i,
    {
        list.push(WordEntry::new(words[i].clone(), translations[i].clone()));
        i += 1;
    }
    assert(list.deep_view() =~= paired(words.deep_view(), translations.deep_view()));
    Some(list)
}

} // verus!
