use word_store::entry::WordEntry;
use word_store::repository::load;
use word_store::save::{begin_save, Rejection, SaveOutcome, SaveStep, WriteError};
use word_store::store::WordStore;

fn entry(word: &str, translation: &str) -> WordEntry {
    WordEntry { word: word.to_string(), translation: translation.to_string() }
}

fn texts(items: &[&str]) -> Vec<String> {
    items.iter().map(|s| s.to_string()).collect()
}

#[test]
fn save_then_load_gives_back_the_pairs() {
    let mut store = WordStore::new();
    let outcome = store.save_words(&texts(&["cat", "dog", "cat"]), &texts(&["gato", "perro", "gato"]));
    assert_eq!(outcome, SaveOutcome::Saved);
    assert_eq!(
        store.load_words(),
        vec![entry("cat", "gato"), entry("dog", "perro"), entry("cat", "gato")]
    );
}

#[test]
fn save_then_load_keeps_unusual_text() {
    let mut store = WordStore::new();
    let words = texts(&["a\"b", "line\nbreak", "caf\u{e9}", "\u{1F600}", "back\\slash"]);
    let translations = texts(&["", "\t", "\u{0}", "}]", "\u{4e2d}"]);
    assert_eq!(store.save_words(&words, &translations), SaveOutcome::Saved);
    let loaded = store.load_words();
    assert_eq!(loaded.len(), 5);
    for i in 0..5 {
        assert_eq!(loaded[i], entry(&words[i], &translations[i]));
    }
}

#[test]
fn a_new_store_loads_as_empty() {
    assert_eq!(WordStore::new().load_words(), Vec::new());
    assert_eq!(WordStore::new(), WordStore { repository: None, archive: String::new() });
}

#[test]
fn a_store_with_a_broken_repository_loads_as_empty() {
    let store = WordStore { repository: Some("{\"words\": [".to_string()), archive: String::new() };
    assert_eq!(store.load_words(), Vec::new());
    let empty = WordStore { repository: Some(String::new()), archive: String::new() };
    assert_eq!(empty.load_words(), Vec::new());
}

#[test]
fn save_archives_the_old_set_and_replaces_it() {
    let mut store = WordStore::new();
    store.save_words(&texts(&["one", "two"]), &texts(&["uno", "dos"]));
    let archive_before = store.archive.clone();
    let outcome = store.save_words(&texts(&["three"]), &texts(&["tres"]));
    assert_eq!(outcome, SaveOutcome::Saved);
    assert_eq!(store.load_words(), vec![entry("three", "tres")]);
    assert!(store.archive.starts_with(&archive_before));
    let added = &store.archive[archive_before.len()..];
    assert_eq!(
        added,
        "{\"words\":[{\"translation\":\"uno\",\"word\":\"one\"},{\"translation\":\"dos\",\"word\":\"two\"}]}\n"
    );
    assert_eq!(
        load(Some(&added[..added.len() - 1])),
        vec![entry("one", "uno"), entry("two", "dos")]
    );
}

#[test]
fn every_save_adds_one_line_to_the_archive() {
    let mut store = WordStore::new();
    store.save_words(&texts(&["a"]), &texts(&["1"]));
    store.save_words(&texts(&["b"]), &texts(&["2"]));
    store.save_words(&texts(&[]), &texts(&[]));
    store.save_words(&texts(&["c"]), &texts(&["3"]));
    let lines: Vec<&str> = store.archive.lines().collect();
    assert_eq!(lines.len(), 4);
    assert_eq!(load(Some(lines[0])), Vec::new());
    assert_eq!(load(Some(lines[1])), vec![entry("a", "1")]);
    assert_eq!(load(Some(lines[2])), vec![entry("b", "2")]);
    assert_eq!(load(Some(lines[3])), Vec::new());
    assert_eq!(store.load_words(), vec![entry("c", "3")]);
}

#[test]
fn save_with_unequal_lengths_is_rejected_and_changes_nothing() {
    let mut store = WordStore::new();
    store.save_words(&texts(&["kept"]), &texts(&["stays"]));
    let repository = store.repository.clone();
    let archive = store.archive.clone();
    let outcome = store.save_words(&texts(&["a", "b"]), &texts(&["x"]));
    assert_eq!(
        outcome,
        SaveOutcome::Rejected(Rejection::ArityMismatch { words: 2, translations: 1 })
    );
    assert_eq!(store.repository, repository);
    assert_eq!(store.archive, archive);
    assert_eq!(store.load_words(), vec![entry("kept", "stays")]);
}

#[test]
fn save_with_unequal_lengths_is_rejected_on_a_new_store() {
    let mut store = WordStore::new();
    let outcome = store.save_words(&texts(&[]), &texts(&["x"]));
    assert_eq!(
        outcome,
        SaveOutcome::Rejected(Rejection::ArityMismatch { words: 0, translations: 1 })
    );
    assert_eq!(store, WordStore::new());
}

#[test]
fn the_first_save_archives_the_empty_set() {
    let mut store = WordStore::new();
    let outcome = store.save_words(&texts(&["cat"]), &texts(&["gato"]));
    assert_eq!(outcome, SaveOutcome::Saved);
    assert_eq!(store.archive, "{\"words\":[]}\n");
    assert_eq!(
        store.repository,
        Some("{\"words\":[{\"translation\":\"gato\",\"word\":\"cat\"}]}".to_string())
    );
    assert_eq!(store.load_words(), vec![entry("cat", "gato")]);
}

#[test]
fn save_over_a_broken_repository_archives_the_empty_set() {
    let mut store = WordStore {
        repository: Some("garbage".to_string()),
        archive: "earlier\n".to_string(),
    };
    assert_eq!(store.save_words(&texts(&["a"]), &texts(&["b"])), SaveOutcome::Saved);
    assert_eq!(store.archive, "earlier\n{\"words\":[]}\n");
    assert_eq!(store.load_words(), vec![entry("a", "b")]);
}

#[test]
fn save_over_bare_words_archives_them_as_pairs() {
    let mut store = WordStore {
        repository: Some("{\"words\":[\"one\",\"two\"]}".to_string()),
        archive: String::new(),
    };
    assert_eq!(store.save_words(&texts(&["a"]), &texts(&["b"])), SaveOutcome::Saved);
    assert_eq!(
        store.archive,
        "{\"words\":[{\"translation\":\"\",\"word\":\"one\"},{\"translation\":\"\",\"word\":\"two\"}]}\n"
    );
}

#[test]
fn save_of_nothing_stores_the_empty_set() {
    let mut store = WordStore::new();
    store.save_words(&texts(&["a"]), &texts(&["b"]));
    assert_eq!(store.save_words(&Vec::new(), &Vec::new()), SaveOutcome::Saved);
    assert_eq!(store.repository, Some("{\"words\":[]}".to_string()));
    assert_eq!(store.load_words(), Vec::new());
}

#[test]
fn a_save_begins_with_the_archive() {
    let current = "{\"words\":[{\"word\":\"old\",\"translation\":\"alt\"}]}";
    let step = begin_save(&texts(&["new"]), &texts(&["neu"]), Some(current));
    assert_eq!(
        step,
        SaveStep::AppendArchive {
            record: "{\"words\":[{\"translation\":\"alt\",\"word\":\"old\"}]}\n".to_string(),
            replacement: "{\"words\":[{\"translation\":\"neu\",\"word\":\"new\"}]}".to_string(),
        }
    );
}

#[test]
fn a_save_without_a_repository_begins_with_the_empty_record() {
    let step = begin_save(&texts(&["new"]), &texts(&["neu"]), None);
    assert_eq!(
        step,
        SaveStep::AppendArchive {
            record: "{\"words\":[]}\n".to_string(),
            replacement: "{\"words\":[{\"translation\":\"neu\",\"word\":\"new\"}]}".to_string(),
        }
    );
}

#[test]
fn a_save_with_unequal_lengths_ends_at_once() {
    let step = begin_save(&texts(&["a", "b"]), &texts(&["x"]), None);
    assert_eq!(
        step,
        SaveStep::Done(SaveOutcome::Rejected(Rejection::ArityMismatch { words: 2, translations: 1 }))
    );
    let more = begin_save(&texts(&["a"]), &texts(&["x", "y", "z"]), Some("{\"words\":[]}"));
    assert_eq!(
        more,
        SaveStep::Done(SaveOutcome::Rejected(Rejection::ArityMismatch { words: 1, translations: 3 }))
    );
}

#[test]
fn the_repository_follows_the_archive() {
    let step = begin_save(&texts(&["new"]), &texts(&["neu"]), None);
    assert_eq!(
        step.after_write(true),
        SaveStep::WriteRepository {
            replacement: "{\"words\":[{\"translation\":\"neu\",\"word\":\"new\"}]}".to_string(),
        }
    );
}

#[test]
fn a_failed_append_ends_the_save() {
    let step = begin_save(&texts(&["new"]), &texts(&["neu"]), None);
    assert_eq!(
        step.after_write(false),
        SaveStep::Done(SaveOutcome::Failed(WriteError::Archive))
    );
}

#[test]
fn a_failed_overwrite_ends_the_save() {
    let step = begin_save(&texts(&["new"]), &texts(&["neu"]), None).after_write(true);
    assert_eq!(
        step.after_write(false),
        SaveStep::Done(SaveOutcome::Failed(WriteError::Repository))
    );
}

#[test]
fn both_writes_end_the_save_as_saved() {
    let step = begin_save(&texts(&["new"]), &texts(&["neu"]), None);
    assert_eq!(
        step.after_write(true).after_write(true),
        SaveStep::Done(SaveOutcome::Saved)
    );
}

#[test]
fn a_finished_save_stays_finished() {
    let saved = SaveStep::Done(SaveOutcome::Saved);
    assert_eq!(saved.after_write(false), SaveStep::Done(SaveOutcome::Saved));
    let failed = SaveStep::Done(SaveOutcome::Failed(WriteError::Archive));
    assert_eq!(failed.after_write(true), SaveStep::Done(SaveOutcome::Failed(WriteError::Archive)));
    let rejected = begin_save(&texts(&["a"]), &Vec::new(), None);
    assert_eq!(
        rejected.after_write(true),
        SaveStep::Done(SaveOutcome::Rejected(Rejection::ArityMismatch { words: 1, translations: 0 }))
    );
}
