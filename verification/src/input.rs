//! What an entry form holds, turned into what a save takes.
//!
//! A form is a list of rows, each with a field for a word and a field for its
//! translation. Only rows with both fields filled in are saved, and a form
//! without such a row gives nothing to save.

use vstd::prelude::*;

verus! {

/// A row of a form: what its word field and its translation field hold.
pub type RowView = (Seq<char>, Seq<char>);

/// Whether both fields of a row are filled in.
pub open spec fn is_filled(row: RowView) -> bool {
    row.0.len() > 0 && row.1.len() > 0
}

/// The rows with both fields filled in, in the order of the form.
pub open spec fn filled_rows(rows: Seq<RowView>) -> Seq<RowView>
    decreases rows.len(),
{
    if rows.len() == 0 {
        Seq::empty()
    } else if is_filled(rows.last()) {
        filled_rows(rows.drop_last()).push(rows.last())
    } else {
        filled_rows(rows.drop_last())
    }
}

/// What the rows of a form hold, row by row.
pub open spec fn rows_view(rows: Seq<(String, String)>) -> Seq<RowView> {
    Seq::new(rows.len(), |i: int| (rows[i].0@, rows[i].1@))
}

/// The words and the translations of the rows that are filled in, as a save
/// takes them: two lists of one length, in the order of the form. There is a
/// result exactly when at least one row is filled in.
pub fn collect_rows(rows: &Vec<(String, String)>) -> (lists: Option<(Vec<String>, Vec<String>)>)
    ensures
        lists is Some <==> filled_rows(rows_view(rows@)).len() > 0,
        lists matches Some((words, translations)) ==> {
            &&& words.len() == translations.len()
            &&& words.len() == filled_rows(rows_view(rows@)).len()
            &&& forall|i: int|
                0 <= i < words.len() ==> (#[trigger] words[i]@, translations[i]@) == filled_rows(
                    rows_view(rows@),
                )[i]
        },
{
    let mut words: Vec<String> = Vec::new();
    let mut translations: Vec<String> = Vec::new();
    let ghost all = rows_view(rows@);
    let mut i: usize = 0;
    assert(all.take(0) =~= Seq::empty());
    while i < rows.len()
        invariant
            i <= rows.len(),
            all == rows_view(rows@),
            words.len() == translations.len(),
            words.len() == filled_rows(all.take(i as int)).len(),
            forall|j: int|
                0 <= j < words.len() ==> (#[trigger] words[j]@, translations[j]@) == filled_rows(
                    all.take(i as int),
                )[j],
        decreases rows.len() - i,
    {
        proof {
            assert(all.take(i + 1).drop_last() =~= all.take(i as int));
            assert(all.take(i + 1).last() == (rows[i as int].0@, rows[i as int].1@));
        }
        if !rows[i].0.as_str().is_empty() && !rows[i].1.as_str().is_empty() {
            words.push(rows[i].0.clone());
            translations.push(rows[i].1.clone());
        }
        i += 1;
    }
    assert(all.take(i as int) =~= all);
    if words.len() > 0 {
        Some((words, translations))
    } else {
        None
    }
}

} // verus!
